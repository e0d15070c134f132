//! Pasting text.
use vstd::prelude::*;

use crate::agent::error::AgentError;
use crate::agent::request::{LlmTool, ToolModel};
use crate::agent::tool::{builtin, ToolOutput};
use crate::json::{Json, JsonModel};
use crate::{json, text};

use crate::keyboard::Key;

verus! {

/// Has text pasted.
pub struct ClipboardTool;

impl ClipboardTool {
    /// The arguments of the tool.
    pub open spec fn properties() -> Seq<(Seq<char>, JsonModel)> {
        seq![
                ("text"@, builtin::property("string"@, "The text to paste"@)),
            ]
    }

    /// How the tool is described to a model.
    pub open spec fn model() -> ToolModel {
        builtin::described(
            "clipboard_paste"@,
            "Set the system clipboard to the given text, then simulate Ctrl+V to paste."@,
            builtin::schema(ClipboardTool::properties(), seq!["text"@]),
        )
    }

    pub fn name(&self) -> (r: &'static str)
        ensures
            r@ == ClipboardTool::model().name,
    {
        "clipboard_paste"
    }

    pub fn description(&self) -> (r: &'static str)
        ensures
            r@ == ClipboardTool::model().description,
    {
        "Set the system clipboard to the given text, then simulate Ctrl+V to paste."
    }

    pub fn parameters(&self) -> (r: Json)
        ensures
            r@ == ClipboardTool::model().parameters,
    {
        let mut properties: Vec<(String, Json)> = Vec::new();
        json::add_member(
            &mut properties,
            "text",
            builtin::property_value("string", "The text to paste"),
        );
        assert(json::member_views(properties@) =~= ClipboardTool::properties());
        builtin::schema_value(properties, builtin::one("text"))
    }

    pub fn spec(&self) -> (r: LlmTool)
        ensures
            r@ == ClipboardTool::model(),
    {
        LlmTool::new(self.name(), self.description(), self.parameters())
    }
}

/// A step of pasting text.
#[derive(Clone, Copy, Debug, PartialEq, Eq, Structural)]
pub enum PasteStep {
    /// Put the text into the clipboard.
    SetText,
    SleepMs(u64),
    Press(Key),
    Click(Key),
    Release(Key),
    /// Put back what was in the clipboard before, if it was text.
    Restore,
}

impl ClipboardTool {
    /// The text that the arguments ask for.
    pub fn text(&self, args: &Json) -> (r: String)
        ensures
            r@ == json::text_or_empty(args@, "text"@),
    {
        args.get_text("text")
    }

    /// The steps of pasting text.
    pub fn steps(&self) -> (r: Vec<PasteStep>)
        ensures
            r@ == seq![
                PasteStep::SetText,
                PasteStep::SleepMs(10),
                PasteStep::Press(Key::Control),
                PasteStep::SleepMs(5),
                PasteStep::Click(Key::Unicode('v')),
                PasteStep::SleepMs(5),
                PasteStep::Release(Key::Control),
                PasteStep::SleepMs(100),
                PasteStep::Restore,
            ],
    {
        let mut steps: Vec<PasteStep> = Vec::new();
        steps.push(PasteStep::SetText);
        steps.push(PasteStep::SleepMs(10));
        steps.push(PasteStep::Press(Key::Control));
        steps.push(PasteStep::SleepMs(5));
        steps.push(PasteStep::Click(Key::Unicode('v')));
        steps.push(PasteStep::SleepMs(5));
        steps.push(PasteStep::Release(Key::Control));
        steps.push(PasteStep::SleepMs(100));
        steps.push(PasteStep::Restore);
        steps
    }

    /// What to say of the outcome.
    pub fn output(&self, text: &str, outcome: Result<(), AgentError>) -> (r: ToolOutput)
        ensures
            match outcome {
                Ok(_) => r matches ToolOutput::Text(t) && t@ == "Pasted "@ + text::decimal(
                    text::byte_len(text@),
                ) + " characters"@,
                Err(e) => r matches ToolOutput::Error(t) && t@ == e.text(),
            },
    {
        match outcome {
            Ok(_) => {
                let n = text::to_decimal(text::byte_count(text) as u64);
                ToolOutput::Text(text::concat3("Pasted ", n.as_str(), " characters"))
            },
            Err(e) => ToolOutput::Error(e.message()),
        }
    }
}

} // verus!
