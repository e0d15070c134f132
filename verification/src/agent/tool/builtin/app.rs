//! Programs of the desktop.
use vstd::prelude::*;
use vstd::utf8::encode_utf8;

use crate::agent::error::AgentError;
use crate::agent::request::{LlmTool, ToolModel};
use crate::agent::tool::{builtin, ToolOutput};
use crate::json::{Json, JsonModel};
use crate::{json, text, urls};

verus! {

/// A program that is to be started.
pub struct Launch {
    pub program: String,
    pub args: Vec<String>,
}

/// `launch` starts `program` with these arguments.
pub open spec fn starts(launch: Launch, program: Seq<char>, args: Seq<Seq<char>>) -> bool {
    launch.program@ == program && text::views(launch.args@) == args
}

/// The arguments by which the shell opens `target`.
pub open spec fn open_args(target: Seq<char>) -> Seq<Seq<char>> {
    seq!["/C"@, "start"@, ""@, target]
}

/// Has the shell open `target`.
pub(crate) fn open_with_shell(target: &str) -> (r: Launch)
    ensures
        starts(r, "cmd"@, open_args(target@)),
{
    let mut args = text::strings3("/C", "start", "");
    let ghost before = text::views(args@);
    args.push(target.to_string());
    assert(text::views(args@) =~= before.push(target@));
    assert(text::views(args@) =~= open_args(target@));
    Launch { program: "cmd".to_string(), args }
}

fn program_alone(program: &str) -> (r: Launch)
    ensures
        starts(r, program@, Seq::empty()),
{
    Launch { program: program.to_string(), args: builtin::nothing() }
}

/// What came of a program that was started: how it ended, or why it did not start.
pub open spec fn launch_result(
    r: Result<ToolOutput, AgentError>,
    outcome: Result<bool, String>,
    success: Seq<char>,
    failure: Seq<char>,
) -> bool {
    match outcome {
        Ok(true) => r matches Ok(ToolOutput::Text(t)) && t@ == success,
        Ok(false) => r matches Ok(ToolOutput::Error(t)) && t@ == failure,
        Err(cause) => r matches Err(AgentError::Tool(m)) && m@ == failure + ": "@ + cause@,
    }
}

pub(crate) fn launched(outcome: Result<bool, String>, success: &str, failure: &str) -> (r: Result<
    ToolOutput,
    AgentError,
>)
    ensures
        launch_result(r, outcome, success@, failure@),
{
    match outcome {
        Ok(true) => Ok(ToolOutput::Text(success.to_string())),
        Ok(false) => Ok(ToolOutput::Error(failure.to_string())),
        Err(cause) => {
            Err(AgentError::Tool(text::concat3(failure, ": ", cause.as_str())))
        },
    }
}

/// Has the calculator opened.
pub struct OpenCalculatorTool;

impl OpenCalculatorTool {
    /// The arguments of the tool.
    pub open spec fn properties() -> Seq<(Seq<char>, JsonModel)> {
        Seq::empty()
    }

    /// How the tool is described to a model.
    pub open spec fn model() -> ToolModel {
        builtin::described(
            "open_calculator"@,
            "Open the Windows Calculator app."@,
            builtin::schema(OpenCalculatorTool::properties(), Seq::empty()),
        )
    }

    pub fn name(&self) -> (r: &'static str)
        ensures
            r@ == OpenCalculatorTool::model().name,
    {
        "open_calculator"
    }

    pub fn description(&self) -> (r: &'static str)
        ensures
            r@ == OpenCalculatorTool::model().description,
    {
        "Open the Windows Calculator app."
    }

    pub fn parameters(&self) -> (r: Json)
        ensures
            r@ == OpenCalculatorTool::model().parameters,
    {
        let properties: Vec<(String, Json)> = Vec::new();
        assert(json::member_views(properties@) =~= OpenCalculatorTool::properties());
        builtin::schema_value(properties, builtin::nothing())
    }

    pub fn spec(&self) -> (r: LlmTool)
        ensures
            r@ == OpenCalculatorTool::model(),
    {
        LlmTool::new(self.name(), self.description(), self.parameters())
    }
}

impl OpenCalculatorTool {
    /// The program that is to be started.
    pub fn launch(&self) -> (r: Launch)
        ensures
            starts(r, "calc.exe"@, Seq::empty()),
    {
        program_alone("calc.exe")
    }

    /// What to say of the outcome.
    pub fn output(&self, outcome: Result<bool, String>) -> (r: Result<ToolOutput, AgentError>)
        ensures
            launch_result(r, outcome, "Calculator opened"@, "Failed to open calculator"@),
    {
        launched(outcome, "Calculator opened", "Failed to open calculator")
    }
}

/// Has the browser opened.
pub struct OpenBrowserTool;

impl OpenBrowserTool {
    /// The arguments of the tool.
    pub open spec fn properties() -> Seq<(Seq<char>, JsonModel)> {
        seq![
                ("url"@, builtin::property("string"@, "URL to open (optional)"@)),
            ]
    }

    /// How the tool is described to a model.
    pub open spec fn model() -> ToolModel {
        builtin::described(
            "open_browser"@,
            "Open the default web browser. Optionally navigate to a URL."@,
            builtin::schema(OpenBrowserTool::properties(), Seq::empty()),
        )
    }

    pub fn name(&self) -> (r: &'static str)
        ensures
            r@ == OpenBrowserTool::model().name,
    {
        "open_browser"
    }

    pub fn description(&self) -> (r: &'static str)
        ensures
            r@ == OpenBrowserTool::model().description,
    {
        "Open the default web browser. Optionally navigate to a URL."
    }

    pub fn parameters(&self) -> (r: Json)
        ensures
            r@ == OpenBrowserTool::model().parameters,
    {
        let mut properties: Vec<(String, Json)> = Vec::new();
        json::add_member(
            &mut properties,
            "url",
            builtin::property_value("string", "URL to open (optional)"),
        );
        assert(json::member_views(properties@) =~= OpenBrowserTool::properties());
        builtin::schema_value(properties, builtin::nothing())
    }

    pub fn spec(&self) -> (r: LlmTool)
        ensures
            r@ == OpenBrowserTool::model(),
    {
        LlmTool::new(self.name(), self.description(), self.parameters())
    }
}

impl OpenBrowserTool {
    /// The program that is to be started.
    pub fn launch(&self, args: &Json) -> (r: Launch)
        ensures
            ({
                let url = json::text_or_empty(args@, "url"@);
                if url.len() == 0 {
                    starts(r, "cmd"@, seq!["/C"@, "start"@, ""@])
                } else {
                    starts(r, "cmd"@, open_args(url))
                }
            }),
    {
        let url = args.get_text("url");
        if url.as_str().is_empty() {
            Launch { program: "cmd".to_string(), args: text::strings3("/C", "start", "") }
        } else {
            open_with_shell(url.as_str())
        }
    }

    /// What to say of the outcome.
    pub fn output(&self, args: &Json, outcome: Result<bool, String>) -> (r: Result<
        ToolOutput,
        AgentError,
    >)
        ensures
            ({
                let url = json::text_or_empty(args@, "url"@);
                let success = if url.len() == 0 {
                    "Browser opened"@
                } else {
                    "Opened browser at "@ + url
                };
                launch_result(r, outcome, success, "Failed to open browser"@)
            }),
    {
        let url = args.get_text("url");
        let success = if url.as_str().is_empty() {
            "Browser opened".to_string()
        } else {
            text::concat2("Opened browser at ", url.as_str())
        };
        launched(outcome, success.as_str(), "Failed to open browser")
    }
}

/// Has the editor opened.
pub struct OpenNotepadTool;

impl OpenNotepadTool {
    /// The arguments of the tool.
    pub open spec fn properties() -> Seq<(Seq<char>, JsonModel)> {
        Seq::empty()
    }

    /// How the tool is described to a model.
    pub open spec fn model() -> ToolModel {
        builtin::described(
            "open_notepad"@,
            "Open Windows Notepad."@,
            builtin::schema(OpenNotepadTool::properties(), Seq::empty()),
        )
    }

    pub fn name(&self) -> (r: &'static str)
        ensures
            r@ == OpenNotepadTool::model().name,
    {
        "open_notepad"
    }

    pub fn description(&self) -> (r: &'static str)
        ensures
            r@ == OpenNotepadTool::model().description,
    {
        "Open Windows Notepad."
    }

    pub fn parameters(&self) -> (r: Json)
        ensures
            r@ == OpenNotepadTool::model().parameters,
    {
        let properties: Vec<(String, Json)> = Vec::new();
        assert(json::member_views(properties@) =~= OpenNotepadTool::properties());
        builtin::schema_value(properties, builtin::nothing())
    }

    pub fn spec(&self) -> (r: LlmTool)
        ensures
            r@ == OpenNotepadTool::model(),
    {
        LlmTool::new(self.name(), self.description(), self.parameters())
    }
}

impl OpenNotepadTool {
    /// The program that is to be started.
    pub fn launch(&self) -> (r: Launch)
        ensures
            starts(r, "notepad.exe"@, Seq::empty()),
    {
        program_alone("notepad.exe")
    }

    /// What to say of the outcome.
    pub fn output(&self, outcome: Result<bool, String>) -> (r: Result<ToolOutput, AgentError>)
        ensures
            launch_result(r, outcome, "Notepad opened"@, "Failed to open notepad"@),
    {
        launched(outcome, "Notepad opened", "Failed to open notepad")
    }
}

/// Has the file manager opened.
pub struct OpenExplorerTool;

impl OpenExplorerTool {
    /// The arguments of the tool.
    pub open spec fn properties() -> Seq<(Seq<char>, JsonModel)> {
        seq![
                ("path"@, builtin::property("string"@, "Directory path to open (optional)"@)),
            ]
    }

    /// How the tool is described to a model.
    pub open spec fn model() -> ToolModel {
        builtin::described(
            "open_explorer"@,
            "Open Windows File Explorer. Optionally open at a specific path."@,
            builtin::schema(OpenExplorerTool::properties(), Seq::empty()),
        )
    }

    pub fn name(&self) -> (r: &'static str)
        ensures
            r@ == OpenExplorerTool::model().name,
    {
        "open_explorer"
    }

    pub fn description(&self) -> (r: &'static str)
        ensures
            r@ == OpenExplorerTool::model().description,
    {
        "Open Windows File Explorer. Optionally open at a specific path."
    }

    pub fn parameters(&self) -> (r: Json)
        ensures
            r@ == OpenExplorerTool::model().parameters,
    {
        let mut properties: Vec<(String, Json)> = Vec::new();
        json::add_member(
            &mut properties,
            "path",
            builtin::property_value("string", "Directory path to open (optional)"),
        );
        assert(json::member_views(properties@) =~= OpenExplorerTool::properties());
        builtin::schema_value(properties, builtin::nothing())
    }

    pub fn spec(&self) -> (r: LlmTool)
        ensures
            r@ == OpenExplorerTool::model(),
    {
        LlmTool::new(self.name(), self.description(), self.parameters())
    }
}

impl OpenExplorerTool {
    /// The program that is to be started.
    pub fn launch(&self, args: &Json) -> (r: Launch)
        ensures
            ({
                let path = json::text_or_empty(args@, "path"@);
                if path.len() == 0 {
                    starts(r, "explorer.exe"@, Seq::empty())
                } else {
                    starts(r, "explorer.exe"@, seq![path])
                }
            }),
    {
        let path = args.get_text("path");
        if path.as_str().is_empty() {
            program_alone("explorer.exe")
        } else {
            Launch { program: "explorer.exe".to_string(), args: builtin::one(path.as_str()) }
        }
    }

    /// What to say of the outcome.
    pub fn output(&self, args: &Json, outcome: Result<bool, String>) -> (r: Result<
        ToolOutput,
        AgentError,
    >)
        ensures
            ({
                let path = json::text_or_empty(args@, "path"@);
                let success = if path.len() == 0 {
                    "Explorer opened"@
                } else {
                    "Opened explorer at "@ + path
                };
                launch_result(r, outcome, success, "Failed to open explorer"@)
            }),
    {
        let path = args.get_text("path");
        let success = if path.as_str().is_empty() {
            "Explorer opened".to_string()
        } else {
            text::concat2("Opened explorer at ", path.as_str())
        };
        launched(outcome, success.as_str(), "Failed to open explorer")
    }
}

/// Has the screenshot program opened.
pub struct ScreenshotTool;

impl ScreenshotTool {
    /// The arguments of the tool.
    pub open spec fn properties() -> Seq<(Seq<char>, JsonModel)> {
        Seq::empty()
    }

    /// How the tool is described to a model.
    pub open spec fn model() -> ToolModel {
        builtin::described(
            "screenshot"@,
            "Open the Windows Snipping Tool for taking a screenshot."@,
            builtin::schema(ScreenshotTool::properties(), Seq::empty()),
        )
    }

    pub fn name(&self) -> (r: &'static str)
        ensures
            r@ == ScreenshotTool::model().name,
    {
        "screenshot"
    }

    pub fn description(&self) -> (r: &'static str)
        ensures
            r@ == ScreenshotTool::model().description,
    {
        "Open the Windows Snipping Tool for taking a screenshot."
    }

    pub fn parameters(&self) -> (r: Json)
        ensures
            r@ == ScreenshotTool::model().parameters,
    {
        let properties: Vec<(String, Json)> = Vec::new();
        assert(json::member_views(properties@) =~= ScreenshotTool::properties());
        builtin::schema_value(properties, builtin::nothing())
    }

    pub fn spec(&self) -> (r: LlmTool)
        ensures
            r@ == ScreenshotTool::model(),
    {
        LlmTool::new(self.name(), self.description(), self.parameters())
    }
}

impl ScreenshotTool {
    /// The program that is to be started.
    pub fn launch(&self) -> (r: Launch)
        ensures
            starts(r, "SnippingTool.exe"@, Seq::empty()),
    {
        program_alone("SnippingTool.exe")
    }

    /// What to say of the outcome.
    pub fn output(&self, outcome: Result<bool, String>) -> (r: Result<ToolOutput, AgentError>)
        ensures
            launch_result(r, outcome, "Snipping Tool opened"@, "Failed to open Snipping Tool"@),
    {
        launched(outcome, "Snipping Tool opened", "Failed to open Snipping Tool")
    }
}

/// Has an email opened for writing.
pub struct ComposeEmailTool;

impl ComposeEmailTool {
    /// The arguments of the tool.
    pub open spec fn properties() -> Seq<(Seq<char>, JsonModel)> {
        seq![
                ("to"@, builtin::property("string"@, "Recipient email address (optional)"@)),
                ("subject"@, builtin::property("string"@, "Email subject (optional)"@)),
                ("body"@, builtin::property("string"@, "Email body (optional)"@)),
            ]
    }

    /// How the tool is described to a model.
    pub open spec fn model() -> ToolModel {
        builtin::described(
            "compose_email"@,
            "Open the default email client with a pre-filled email. Use mailto: protocol."@,
            builtin::schema(ComposeEmailTool::properties(), Seq::empty()),
        )
    }

    pub fn name(&self) -> (r: &'static str)
        ensures
            r@ == ComposeEmailTool::model().name,
    {
        "compose_email"
    }

    pub fn description(&self) -> (r: &'static str)
        ensures
            r@ == ComposeEmailTool::model().description,
    {
        "Open the default email client with a pre-filled email. Use mailto: protocol."
    }

    pub fn parameters(&self) -> (r: Json)
        ensures
            r@ == ComposeEmailTool::model().parameters,
    {
        let mut properties: Vec<(String, Json)> = Vec::new();
        json::add_member(
            &mut properties,
            "to",
            builtin::property_value("string", "Recipient email address (optional)"),
        );
        json::add_member(
            &mut properties,
            "subject",
            builtin::property_value("string", "Email subject (optional)"),
        );
        json::add_member(
            &mut properties,
            "body",
            builtin::property_value("string", "Email body (optional)"),
        );
        assert(json::member_views(properties@) =~= ComposeEmailTool::properties());
        builtin::schema_value(properties, builtin::nothing())
    }

    pub fn spec(&self) -> (r: LlmTool)
        ensures
            r@ == ComposeEmailTool::model(),
    {
        LlmTool::new(self.name(), self.description(), self.parameters())
    }
}

/// The address that opens an email to `to` with this subject and body.
pub open spec fn mailto(to: Seq<char>, subject: Seq<char>, body: Seq<char>) -> Seq<char> {
    let subject_part = "subject="@ + urls::percent_encoded(encode_utf8(subject));
    let body_part = "body="@ + urls::percent_encoded(encode_utf8(body));
    let head = "mailto:"@ + to;
    if subject.len() > 0 && body.len() > 0 {
        head + "?"@ + subject_part + "&"@ + body_part
    } else if subject.len() > 0 {
        head + "?"@ + subject_part
    } else if body.len() > 0 {
        head + "?"@ + body_part
    } else {
        head
    }
}

impl ComposeEmailTool {
    /// The address that opens the email that the arguments ask for.
    pub fn address(&self, args: &Json) -> (r: String)
        ensures
            r@ == mailto(
                json::text_or_empty(args@, "to"@),
                json::text_or_empty(args@, "subject"@),
                json::text_or_empty(args@, "body"@),
            ),
    {
        let to = args.get_text("to");
        let subject = args.get_text("subject");
        let body = args.get_text("body");
        let mut address = text::concat2("mailto:", to.as_str());
        if !subject.as_str().is_empty() {
            address.append("?");
            let encoded = urls::percent_encode(subject.as_str());
            let part = text::concat2("subject=", encoded.as_str());
            address.append(part.as_str());
        }
        if !body.as_str().is_empty() {
            if subject.as_str().is_empty() {
                address.append("?");
            } else {
                address.append("&");
            }
            let encoded = urls::percent_encode(body.as_str());
            let part = text::concat2("body=", encoded.as_str());
            address.append(part.as_str());
        }
        address
    }

    /// The program that is to be started.
    pub fn launch(&self, args: &Json) -> (r: Launch)
        ensures
            starts(
                r,
                "cmd"@,
                open_args(
                    mailto(
                        json::text_or_empty(args@, "to"@),
                        json::text_or_empty(args@, "subject"@),
                        json::text_or_empty(args@, "body"@),
                    ),
                ),
            ),
    {
        let address = self.address(args);
        open_with_shell(address.as_str())
    }

    /// What to say of the outcome.
    pub fn output(&self, args: &Json, outcome: Result<bool, String>) -> (r: Result<
        ToolOutput,
        AgentError,
    >)
        ensures
            ({
                let to = json::text_or_empty(args@, "to"@);
                let success = if to.len() == 0 {
                    "Opened email client"@
                } else {
                    "Opened email client to "@ + to
                };
                launch_result(r, outcome, success, "Failed to open email client"@)
            }),
    {
        let to = args.get_text("to");
        let success = if to.as_str().is_empty() {
            "Opened email client".to_string()
        } else {
            text::concat2("Opened email client to ", to.as_str())
        };
        launched(outcome, success.as_str(), "Failed to open email client")
    }
}

/// An email goes to the address that is asked for, and its subject and its text are in it where
/// there are any.
pub proof fn law_an_email_holds_what_was_asked_for(
    to: Seq<char>,
    subject: Seq<char>,
    body: Seq<char>,
)
    ensures
        ("mailto:"@ + to).is_prefix_of(mailto(to, subject, body)),
        subject.len() > 0 ==> text::contains(
            mailto(to, subject, body),
            "subject="@ + urls::percent_encoded(encode_utf8(subject)),
        ),
        body.len() > 0 ==> ("body="@ + urls::percent_encoded(encode_utf8(body))).is_suffix_of(
            mailto(to, subject, body),
        ),
        subject.len() == 0 && body.len() == 0 ==> mailto(to, subject, body) == "mailto:"@ + to,
{
    let head = "mailto:"@ + to;
    let subject_part = "subject="@ + urls::percent_encoded(encode_utf8(subject));
    let body_part = "body="@ + urls::percent_encoded(encode_utf8(body));
    if subject.len() > 0 && body.len() > 0 {
        lemma_stands_between(head + "?"@, subject_part, "&"@ + body_part);
        lemma_stands_between(head + "?"@ + subject_part + "&"@, body_part, Seq::empty());
        lemma_begins_with(head, "?"@ + subject_part + "&"@ + body_part);
        assert(head + "?"@ + subject_part + ("&"@ + body_part) =~= mailto(to, subject, body));
        assert(head + ("?"@ + subject_part + "&"@ + body_part) =~= mailto(to, subject, body));
        assert(mailto(to, subject, body) + Seq::<char>::empty() =~= mailto(to, subject, body));
    } else if subject.len() > 0 {
        lemma_stands_between(head + "?"@, subject_part, Seq::empty());
        lemma_begins_with(head, "?"@ + subject_part);
        assert(head + ("?"@ + subject_part) =~= mailto(to, subject, body));
        assert(mailto(to, subject, body) + Seq::<char>::empty() =~= mailto(to, subject, body));
    } else if body.len() > 0 {
        lemma_stands_between(head + "?"@, body_part, Seq::empty());
        lemma_begins_with(head, "?"@ + body_part);
        assert(head + ("?"@ + body_part) =~= mailto(to, subject, body));
        assert(mailto(to, subject, body) + Seq::<char>::empty() =~= mailto(to, subject, body));
    } else {
        lemma_begins_with(head, Seq::empty());
        assert(head + Seq::<char>::empty() =~= head);
    }
}

proof fn lemma_stands_between(a: Seq<char>, b: Seq<char>, c: Seq<char>)
    ensures
        text::contains(a + b + c, b),
        c.len() == 0 ==> b.is_suffix_of(a + b + c),
{
    text::lemma_contains_self(b);
    text::lemma_contains_within(a, b, c, b);
    let all = a + b + c;
    if c.len() == 0 {
        assert(all.subrange(all.len() - b.len(), all.len() as int) =~= b);
    }
}

proof fn lemma_begins_with(a: Seq<char>, b: Seq<char>)
    ensures
        a.is_prefix_of(a + b),
{
    assert((a + b).subrange(0, a.len() as int) =~= a);
}

/// A program that was started and ended well is reported as a success, and no other is.
pub proof fn law_only_success_is_reported_as_success(
    r: Result<ToolOutput, AgentError>,
    outcome: Result<bool, String>,
    success: Seq<char>,
    failure: Seq<char>,
)
    requires
        launch_result(r, outcome, success, failure),
    ensures
        (r matches Ok(o) && o is Text) <==> outcome == Ok::<bool, String>(true),
        r is Err <==> outcome is Err,
        outcome matches Err(cause) ==> (r matches Err(AgentError::Tool(m)) && cause@.is_suffix_of(
            m@,
        )),
{
    if let Err(cause) = outcome {
        let m = (failure + ": "@) + cause@;
        assert(m.subrange(m.len() - cause@.len(), m.len() as int) =~= cause@);
    }
}

} // verus!
