//! Writing files.
use vstd::prelude::*;

use crate::agent::error::AgentError;
use crate::agent::request::{LlmTool, ToolModel};
use crate::agent::tool::{builtin, ToolOutput};
use crate::json::{Json, JsonModel};
use crate::{json, text};

verus! {

/// Has a file written.
pub struct FileWriteTool;

impl FileWriteTool {
    /// The arguments of the tool.
    pub open spec fn properties() -> Seq<(Seq<char>, JsonModel)> {
        seq![
                ("path"@, builtin::property("string"@, "File path to write to"@)),
                ("content"@, builtin::property("string"@, "Content to write"@)),
            ]
    }

    /// How the tool is described to a model.
    pub open spec fn model() -> ToolModel {
        builtin::described(
            "file_write"@,
            "Write text content to a file. Creates the file if it doesn't exist, overwrites if it does."@,
            builtin::schema(FileWriteTool::properties(), seq!["path"@, "content"@]),
        )
    }

    pub fn name(&self) -> (r: &'static str)
        ensures
            r@ == FileWriteTool::model().name,
    {
        "file_write"
    }

    pub fn description(&self) -> (r: &'static str)
        ensures
            r@ == FileWriteTool::model().description,
    {
        "Write text content to a file. Creates the file if it doesn't exist, overwrites if it does."
    }

    pub fn parameters(&self) -> (r: Json)
        ensures
            r@ == FileWriteTool::model().parameters,
    {
        let mut properties: Vec<(String, Json)> = Vec::new();
        json::add_member(
            &mut properties,
            "path",
            builtin::property_value("string", "File path to write to"),
        );
        json::add_member(
            &mut properties,
            "content",
            builtin::property_value("string", "Content to write"),
        );
        assert(json::member_views(properties@) =~= FileWriteTool::properties());
        builtin::schema_value(properties, text::strings2("path", "content"))
    }

    pub fn spec(&self) -> (r: LlmTool)
        ensures
            r@ == FileWriteTool::model(),
    {
        LlmTool::new(self.name(), self.description(), self.parameters())
    }
}

impl FileWriteTool {
    /// The file and the content that the arguments ask for.
    pub fn request(&self, args: &Json) -> (r: (String, String))
        ensures
            r.0@ == json::text_or_empty(args@, "path"@),
            r.1@ == json::text_or_empty(args@, "content"@),
    {
        (args.get_text("path"), args.get_text("content"))
    }

    /// What came of writing the content: the number of its bytes.
    pub fn output(&self, path: &str, content: &str) -> (r: ToolOutput)
        ensures
            r matches ToolOutput::Text(t) && t@ == "Wrote "@ + text::decimal(
                text::byte_len(content@),
            ) + " bytes to "@ + path@,
    {
        let n = text::to_decimal(text::byte_count(content) as u64);
        let head = text::concat3("Wrote ", n.as_str(), " bytes to ");
        ToolOutput::Text(text::concat2(head.as_str(), path))
    }

    /// The error for a file that could not be written.
    pub fn not_written(&self, path: &str, cause: &str) -> (r: AgentError)
        ensures
            r matches AgentError::Tool(m) && m@ == "Failed to write file '"@ + path@ + "': "@
                + cause@,
    {
        let head = text::concat3("Failed to write file '", path, "': ");
        builtin::tool_failure(head.as_str(), cause)
    }
}

} // verus!
