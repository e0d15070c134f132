//! The tools that the agent always has.
//!
//! A tool reads its arguments, has something done, and says what came of it. What it has
//! done is the business of the application; the reading and the saying stand here.
use vstd::prelude::*;

use crate::agent::error::AgentError;
use crate::agent::request::{LlmTool, ToolModel};
use crate::json::{Json, JsonModel};
use crate::{agent, json, text};

pub mod app;
pub mod bash;
pub mod clipboard;
pub mod file_edit;
pub mod file_read;
pub mod file_write;
pub mod glob;
pub mod grep;
pub mod open_url;

use app::{
    ComposeEmailTool, OpenBrowserTool, OpenCalculatorTool, OpenExplorerTool, OpenNotepadTool,
    ScreenshotTool,
};
use bash::BashTool;
use clipboard::ClipboardTool;
use file_edit::FileEditTool;
use file_read::FileReadTool;
use file_write::FileWriteTool;
use glob::GlobTool;
use grep::GrepTool;
use open_url::OpenUrlTool;

verus! {

// ---------------------------------------------------------------------------
// Schemas
// ---------------------------------------------------------------------------

/// The schema of one argument.
pub open spec fn property(kind: Seq<char>, description: Seq<char>) -> JsonModel {
    JsonModel::Object(
        seq![("type"@, JsonModel::Text(kind)), ("description"@, JsonModel::Text(description))],
    )
}

/// The schema of the arguments of a tool: what they are, and which have to be given.
pub open spec fn schema(
    properties: Seq<(Seq<char>, JsonModel)>,
    required: Seq<Seq<char>>,
) -> JsonModel {
    let shape = seq![
        ("type"@, JsonModel::Text("object"@)),
        ("properties"@, JsonModel::Object(properties)),
    ];
    if required.len() > 0 {
        JsonModel::Object(
            shape.push(
                (
                    "required"@,
                    JsonModel::List(required.map_values(|r: Seq<char>| JsonModel::Text(r))),
                ),
            ),
        )
    } else {
        JsonModel::Object(shape)
    }
}

pub(crate) fn property_value(kind: &str, description: &str) -> (r: Json)
    ensures
        r@ == property(kind@, description@),
{
    json::object2("type", json::text_value(kind), "description", json::text_value(description))
}

pub(crate) fn schema_value(properties: Vec<(String, Json)>, required: Vec<String>) -> (r: Json)
    ensures
        r@ == schema(json::member_views(properties@), text::views(required@)),
{
    let ghost names = text::views(required@);
    let mut members: Vec<(String, Json)> = Vec::new();
    json::add_member(&mut members, "type", json::text_value("object"));
    json::add_member(&mut members, "properties", json::object(properties));
    if required.len() > 0 {
        let mut items: Vec<Json> = Vec::new();
        for i in 0..required.len()
            invariant
                names == text::views(required@),
                json::item_views(items@) == names.take(i as int).map_values(
                    |r: Seq<char>| JsonModel::Text(r),
                ),
        {
            json::add_item(&mut items, json::text_value(required[i].as_str()));
            assert(names.take(i + 1) =~= names.take(i as int).push(names[i as int]));
        }
        assert(names.take(names.len() as int) =~= names);
        json::add_member(&mut members, "required", json::list(items));
    }
    let r = json::object(members);
    assert(r@->Object_0 =~= schema(json::member_views(properties@), names)->Object_0);
    r
}

/// The list of one text.
pub(crate) fn one(a: &str) -> (r: Vec<String>)
    ensures
        text::views(r@) == seq![a@],
{
    let mut out: Vec<String> = Vec::new();
    out.push(a.to_string());
    assert(text::views(out@) =~= seq![a@]);
    out
}

/// The list without a text.
pub(crate) fn nothing() -> (r: Vec<String>)
    ensures
        text::views(r@) == Seq::<Seq<char>>::empty(),
{
    let out: Vec<String> = Vec::new();
    assert(text::views(out@) =~= Seq::<Seq<char>>::empty());
    out
}

// ---------------------------------------------------------------------------
// Arguments and failures
// ---------------------------------------------------------------------------

/// The error for a tool that failed: what it was about, and the cause.
pub(crate) fn tool_failure(what: &str, cause: &str) -> (r: AgentError)
    ensures
        r matches AgentError::Tool(m) && m@ == what@ + cause@,
{
    AgentError::Tool(text::concat2(what, cause))
}

/// The text that the argument `key` is. Without one the call is invalid.
pub(crate) fn required_text(args: &Json, key: &str) -> (r: Result<String, AgentError>)
    ensures
        match json::text_member(args@, key@) {
            Some(t) => r matches Ok(v) && v@ == t,
            None => r matches Err(AgentError::InvalidToolArguments(m)) && m@ == key@
                + " required"@,
        },
{
    match args.get_str(key) {
        Some(t) => Ok(t.to_string()),
        None => Err(AgentError::InvalidToolArguments(text::concat2(key, " required"))),
    }
}

// ---------------------------------------------------------------------------
// All tools
// ---------------------------------------------------------------------------

/// How a tool is described to a model.
pub open spec fn described(
    name: Seq<char>,
    description: Seq<char>,
    parameters: JsonModel,
) -> ToolModel {
    ToolModel { spec_type: "function"@, name, description, parameters }
}

/// The descriptions of all tools, in their order.
pub open spec fn all_tools() -> Seq<ToolModel> {
    seq![
        BashTool::model(),
        FileReadTool::model(),
        FileWriteTool::model(),
        FileEditTool::model(),
        GlobTool::model(),
        GrepTool::model(),
        ClipboardTool::model(),
        OpenUrlTool::model(),
        OpenCalculatorTool::model(),
        OpenBrowserTool::model(),
        OpenNotepadTool::model(),
        OpenExplorerTool::model(),
        ScreenshotTool::model(),
        ComposeEmailTool::model(),
    ]
}

fn add_tool(tools: &mut Vec<LlmTool>, tool: LlmTool)
    ensures
        agent::request::tool_views(final(tools)@) == agent::request::tool_views(old(tools)@).push(
            tool@,
        ),
{
    let ghost before = agent::request::tool_views(tools@);
    tools.push(tool);
    assert(agent::request::tool_views(tools@) =~= before.push(tool@));
}

/// The descriptions of all tools.
pub fn create_all_tools() -> (r: Vec<LlmTool>)
    ensures
        agent::request::tool_views(r@) == all_tools(),
{
    let mut tools: Vec<LlmTool> = Vec::new();
    add_tool(&mut tools, BashTool.spec());
    add_tool(&mut tools, FileReadTool.spec());
    add_tool(&mut tools, FileWriteTool.spec());
    add_tool(&mut tools, FileEditTool.spec());
    add_tool(&mut tools, GlobTool.spec());
    add_tool(&mut tools, GrepTool.spec());
    add_tool(&mut tools, ClipboardTool.spec());
    add_tool(&mut tools, OpenUrlTool.spec());
    add_tool(&mut tools, OpenCalculatorTool.spec());
    add_tool(&mut tools, OpenBrowserTool.spec());
    add_tool(&mut tools, OpenNotepadTool.spec());
    add_tool(&mut tools, OpenExplorerTool.spec());
    add_tool(&mut tools, ScreenshotTool.spec());
    add_tool(&mut tools, ComposeEmailTool.spec());
    assert(agent::request::tool_views(tools@) =~= all_tools());
    tools
}

/// No two tools have the same name, so that a call means one of them; and each is offered as a
/// function.
pub proof fn law_tools_have_names_of_their_own(i: int, j: int)
    requires
        0 <= i < j < all_tools().len(),
    ensures
        all_tools()[i].name != all_tools()[j].name,
        all_tools()[i].name.len() > 0,
        all_tools()[i].spec_type == "function"@,
        all_tools().len() == 14,
{
    reveal_strlit("bash");
    reveal_strlit("file_read");
    reveal_strlit("file_write");
    reveal_strlit("file_edit");
    reveal_strlit("glob");
    reveal_strlit("grep");
    reveal_strlit("clipboard_paste");
    reveal_strlit("open_url");
    reveal_strlit("open_calculator");
    reveal_strlit("open_browser");
    reveal_strlit("open_notepad");
    reveal_strlit("open_explorer");
    reveal_strlit("screenshot");
    reveal_strlit("compose_email");
    assert("bash"@.len() == 4);
    assert("file_read"@.len() == 9);
    assert("file_write"@.len() == 10);
    assert("file_edit"@.len() == 9);
    assert("glob"@.len() == 4);
    assert("grep"@.len() == 4);
    assert("clipboard_paste"@.len() == 15);
    assert("open_url"@.len() == 8);
    assert("open_calculator"@.len() == 15);
    assert("open_browser"@.len() == 12);
    assert("open_notepad"@.len() == 12);
    assert("open_explorer"@.len() == 13);
    assert("screenshot"@.len() == 10);
    assert("compose_email"@.len() == 13);
    assert("bash"@[0] == 'b');
    assert("glob"@[0] == 'g');
    assert("grep"@[0] == 'g');
    assert("bash"@[1] == 'a');
    assert("glob"@[1] == 'l');
    assert("grep"@[1] == 'r');
    assert("file_read"@[5] == 'r');
    assert("file_edit"@[5] == 'e');
    assert("file_write"@[0] == 'f');
    assert("screenshot"@[0] == 's');
    assert("clipboard_paste"@[0] == 'c');
    assert("open_calculator"@[0] == 'o');
    assert("open_browser"@[5] == 'b');
    assert("open_notepad"@[5] == 'n');
    assert("open_explorer"@[0] == 'o');
    assert("compose_email"@[0] == 'c');
    let names = all_tools();
    assert(names[0].name == "bash"@);
    assert(names[1].name == "file_read"@);
    assert(names[2].name == "file_write"@);
    assert(names[3].name == "file_edit"@);
    assert(names[4].name == "glob"@);
    assert(names[5].name == "grep"@);
    assert(names[6].name == "clipboard_paste"@);
    assert(names[7].name == "open_url"@);
    assert(names[8].name == "open_calculator"@);
    assert(names[9].name == "open_browser"@);
    assert(names[10].name == "open_notepad"@);
    assert(names[11].name == "open_explorer"@);
    assert(names[12].name == "screenshot"@);
    assert(names[13].name == "compose_email"@);
}

/// The schema of a tool describes its arguments, and names those that have to be given.
pub proof fn law_a_schema_describes_the_arguments(
    properties: Seq<(Seq<char>, JsonModel)>,
    required: Seq<Seq<char>>,
)
    ensures
        ({
            let s = schema(properties, required);
            let needed = json::items(json::member_or_null(s, "required"@));
            &&& json::text_member(s, "type"@) == Some("object"@)
            &&& json::member(s, "properties"@) == Some(JsonModel::Object(properties))
            &&& needed.len() == required.len()
            &&& forall|i: int|
                0 <= i < required.len() ==> #[trigger] needed[i] == JsonModel::Text(required[i])
        }),
{
    reveal_strlit("type");
    reveal_strlit("properties");
    reveal_strlit("required");
    assert("type"@.len() == 4);
    assert("properties"@.len() == 10);
    assert("required"@.len() == 8);
    let s = schema(properties, required);
    let all = s->Object_0;
    json::lemma_find_at(all, 0);
    json::lemma_find_at(all, 1);
    if required.len() > 0 {
        json::lemma_find_at(all, 2);
    } else {
        json::lemma_find_none(all, "required"@);
    }
}

} // verus!
