//! Reading files.
use vstd::prelude::*;

use crate::agent::error::AgentError;
use crate::agent::request::{LlmTool, ToolModel};
use crate::agent::tool::{builtin, ToolOutput};
use crate::json::{Json, JsonModel};
use crate::{json, text};

verus! {

/// Has a file read.
pub struct FileReadTool;

impl FileReadTool {
    /// The arguments of the tool.
    pub open spec fn properties() -> Seq<(Seq<char>, JsonModel)> {
        seq![
                ("path"@, builtin::property("string"@, "Absolute or relative file path"@)),
            ]
    }

    /// How the tool is described to a model.
    pub open spec fn model() -> ToolModel {
        builtin::described(
            "file_read"@,
            "Read the contents of a file. Returns up to the first 10000 characters."@,
            builtin::schema(FileReadTool::properties(), seq!["path"@]),
        )
    }

    pub fn name(&self) -> (r: &'static str)
        ensures
            r@ == FileReadTool::model().name,
    {
        "file_read"
    }

    pub fn description(&self) -> (r: &'static str)
        ensures
            r@ == FileReadTool::model().description,
    {
        "Read the contents of a file. Returns up to the first 10000 characters."
    }

    pub fn parameters(&self) -> (r: Json)
        ensures
            r@ == FileReadTool::model().parameters,
    {
        let mut properties: Vec<(String, Json)> = Vec::new();
        json::add_member(
            &mut properties,
            "path",
            builtin::property_value("string", "Absolute or relative file path"),
        );
        assert(json::member_views(properties@) =~= FileReadTool::properties());
        builtin::schema_value(properties, builtin::one("path"))
    }

    pub fn spec(&self) -> (r: LlmTool)
        ensures
            r@ == FileReadTool::model(),
    {
        LlmTool::new(self.name(), self.description(), self.parameters())
    }
}

/// The number of characters of a file that are handed out.
pub const READ_LIMIT: usize = 10_000;

impl FileReadTool {
    /// The file that the arguments ask for.
    pub fn path(&self, args: &Json) -> (r: String)
        ensures
            r@ == json::text_or_empty(args@, "path"@),
    {
        args.get_text("path")
    }

    /// What the file holds, up to the limit.
    pub fn output(&self, content: String) -> (r: ToolOutput)
        ensures
            r matches ToolOutput::Text(t) && t@ == if content@.len() > READ_LIMIT {
                content@.take(READ_LIMIT as int) + "... [truncated at 10000 chars]"@
            } else {
                content@
            },
    {
        if content.as_str().unicode_len() > READ_LIMIT {
            let kept = text::take_chars(content.as_str(), READ_LIMIT);
            ToolOutput::Text(text::concat2(kept.as_str(), "... [truncated at 10000 chars]"))
        } else {
            ToolOutput::Text(content)
        }
    }

    /// The error for a file that could not be read.
    pub fn not_read(&self, path: &str, cause: &str) -> (r: AgentError)
        ensures
            r matches AgentError::Tool(m) && m@ == "Failed to read file '"@ + path@ + "': "@
                + cause@,
    {
        let head = text::concat3("Failed to read file '", path, "': ");
        builtin::tool_failure(head.as_str(), cause)
    }
}

} // verus!
