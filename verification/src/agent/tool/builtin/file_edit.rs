//! Replacing text in files.
use vstd::prelude::*;

use crate::agent::error::AgentError;
use crate::agent::request::{LlmTool, ToolModel};
use crate::agent::tool::{builtin, ToolOutput};
use crate::json::{Json, JsonModel};
use crate::{json, text};

verus! {

/// Has text in a file replaced.
pub struct FileEditTool;

impl FileEditTool {
    /// The arguments of the tool.
    pub open spec fn properties() -> Seq<(Seq<char>, JsonModel)> {
        seq![
                ("file_path"@, builtin::property("string"@, "Path to the file"@)),
                ("old_string"@, builtin::property("string"@, "Exact string to find"@)),
                ("new_string"@, builtin::property("string"@, "Replacement string"@)),
                ("replace_all"@, builtin::property("boolean"@, "Replace all occurrences (default false)"@)),
            ]
    }

    /// How the tool is described to a model.
    pub open spec fn model() -> ToolModel {
        builtin::described(
            "file_edit"@,
            "Perform exact string replacement in a file."@,
            builtin::schema(FileEditTool::properties(), seq!["file_path"@, "old_string"@, "new_string"@]),
        )
    }

    pub fn name(&self) -> (r: &'static str)
        ensures
            r@ == FileEditTool::model().name,
    {
        "file_edit"
    }

    pub fn description(&self) -> (r: &'static str)
        ensures
            r@ == FileEditTool::model().description,
    {
        "Perform exact string replacement in a file."
    }

    pub fn parameters(&self) -> (r: Json)
        ensures
            r@ == FileEditTool::model().parameters,
    {
        let mut properties: Vec<(String, Json)> = Vec::new();
        json::add_member(
            &mut properties,
            "file_path",
            builtin::property_value("string", "Path to the file"),
        );
        json::add_member(
            &mut properties,
            "old_string",
            builtin::property_value("string", "Exact string to find"),
        );
        json::add_member(
            &mut properties,
            "new_string",
            builtin::property_value("string", "Replacement string"),
        );
        json::add_member(
            &mut properties,
            "replace_all",
            builtin::property_value("boolean", "Replace all occurrences (default false)"),
        );
        assert(json::member_views(properties@) =~= FileEditTool::properties());
        builtin::schema_value(properties, text::strings3("file_path", "old_string", "new_string"))
    }

    pub fn spec(&self) -> (r: LlmTool)
        ensures
            r@ == FileEditTool::model(),
    {
        LlmTool::new(self.name(), self.description(), self.parameters())
    }
}

/// A replacement that is to be made.
pub struct EditRequest {
    pub path: String,
    pub old: String,
    pub new: String,
    /// Whether it is made wherever it can be, or at the first place.
    pub replace_all: bool,
}

/// What a file holds after a replacement.
pub open spec fn edited(
    content: Seq<char>,
    old: Seq<char>,
    new: Seq<char>,
    replace_all: bool,
) -> Seq<char> {
    if replace_all {
        text::replaced(content, old, new)
    } else {
        text::replaced_once(content, old, new)
    }
}

/// How many replacements that are.
pub open spec fn edit_count(content: Seq<char>, old: Seq<char>, replace_all: bool) -> nat {
    if replace_all {
        text::match_count(content, old)
    } else {
        1
    }
}

impl FileEditTool {
    /// The replacement that the arguments ask for.
    pub fn request(&self, args: &Json) -> (r: Result<EditRequest, AgentError>)
        ensures
            ({
                let path = json::text_member(args@, "file_path"@);
                let old = json::text_member(args@, "old_string"@);
                let new = json::text_member(args@, "new_string"@);
                if path is None {
                    r matches Err(AgentError::InvalidToolArguments(m)) && m@ == "file_path"@
                        + " required"@
                } else if old is None {
                    r matches Err(AgentError::InvalidToolArguments(m)) && m@ == "old_string"@
                        + " required"@
                } else if new is None {
                    r matches Err(AgentError::InvalidToolArguments(m)) && m@ == "new_string"@
                        + " required"@
                } else {
                    r matches Ok(e) && e.path@ == path->0 && e.old@ == old->0 && e.new@ == new->0
                        && e.replace_all == (json::member_or_null(args@, "replace_all"@)
                        == JsonModel::Bool(true))
                }
            }),
    {
        let path = match builtin::required_text(args, "file_path") {
            Ok(p) => p,
            Err(e) => return Err(e),
        };
        let old = match builtin::required_text(args, "old_string") {
            Ok(o) => o,
            Err(e) => return Err(e),
        };
        let new = match builtin::required_text(args, "new_string") {
            Ok(n) => n,
            Err(e) => return Err(e),
        };
        let replace_all = match args.get("replace_all") {
            Some(Json::Bool(b)) => *b,
            _ => false,
        };
        Ok(EditRequest { path, old, new, replace_all })
    }

    /// Makes a replacement in what a file holds: what it then holds, and what to say of it.
    pub fn edit(&self, request: &EditRequest, content: &str) -> (r: Result<
        (String, ToolOutput),
        AgentError,
    >)
        requires
            content@.len() < usize::MAX,
        ensures
            if text::contains(content@, request.old@) {
                &&& r matches Ok(v)
                &&& v.0@ == edited(content@, request.old@, request.new@, request.replace_all)
                &&& v.1 matches ToolOutput::Text(t) && t@ == "Replaced "@ + text::decimal(
                    edit_count(content@, request.old@, request.replace_all),
                ) + " occurrence(s) in "@ + request.path@
            } else {
                r matches Err(AgentError::Tool(m)) && m@ == "old_string not found in file"@
            },
    {
        let old = request.old.as_str();
        let new = request.new.as_str();
        let (new_content, count): (String, u64) = if !text::contains_str(content, old) {
            return Err(AgentError::Tool("old_string not found in file".to_string()));
        } else if request.replace_all {
            (text::replace_all(content, old, new), text::count_matches(content, old))
        } else {
            (text::replace_once(content, old, new), 1)
        };
        let count = text::to_decimal(count);
        let head = text::concat3("Replaced ", count.as_str(), " occurrence(s) in ");
        Ok((new_content, ToolOutput::Text(text::concat2(head.as_str(), request.path.as_str()))))
    }

    /// The error for a file that could not be read.
    pub fn not_read(&self, cause: &str) -> (r: AgentError)
        ensures
            r matches AgentError::Tool(m) && m@ == "Read failed: "@ + cause@,
    {
        builtin::tool_failure("Read failed: ", cause)
    }

    /// The error for a file that could not be written.
    pub fn not_written(&self, cause: &str) -> (r: AgentError)
        ensures
            r matches AgentError::Tool(m) && m@ == "Write failed: "@ + cause@,
    {
        builtin::tool_failure("Write failed: ", cause)
    }
}

/// Replacing a text by itself changes nothing, and something is replaced exactly where the
/// text occurs.
pub proof fn law_replacing_by_itself(content: Seq<char>, old: Seq<char>, replace_all: bool)
    requires
        text::contains(content, old),
    ensures
        edited(content, old, old, replace_all) == content,
        edit_count(content, old, replace_all) > 0,
{
    text::lemma_replaced_by_itself(content, old);
    text::lemma_match_count(content, old);
}

/// An edit changes the file where the text stands and nowhere else: at the first place, or,
/// where all are to be replaced, there and in all that follows. As many replacements are
/// reported as are made.
pub proof fn law_an_edit_changes_only_what_was_asked(
    content: Seq<char>,
    old: Seq<char>,
    new: Seq<char>,
    i: int,
)
    requires
        old.len() > 0,
        text::first_at(content, old, i),
    ensures
        ({
            let before = content.take(i);
            let behind = content.skip(i + old.len());
            &&& edited(content, old, new, false) == before + new + behind
            &&& edit_count(content, old, false) == 1
            &&& !text::contains(behind, old) ==> edited(content, old, new, true) == before + new
                + behind && edit_count(content, old, true) == 1
            &&& text::contains(behind, old) ==> edited(content, old, new, true) == before + new
                + edited(behind, old, new, true) && edit_count(content, old, true) == 1
                + edit_count(behind, old, true)
        }),
{
    text::law_a_text_is_replaced_where_it_stands(content, old, new, i);
    text::law_a_text_is_replaced_where_it_stands(content.skip(i + old.len()), old, new, 0);
}

} // verus!
