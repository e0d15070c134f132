//! Finding files by their names.
use vstd::prelude::*;

use crate::agent::error::AgentError;
use crate::agent::request::{LlmTool, ToolModel};
use crate::agent::tool::{builtin, ToolOutput};
use crate::json::{Json, JsonModel};
use crate::{json, text};

verus! {

/// Has files found.
pub struct GlobTool;

impl GlobTool {
    /// The arguments of the tool.
    pub open spec fn properties() -> Seq<(Seq<char>, JsonModel)> {
        seq![
                ("pattern"@, builtin::property("string"@, "Glob pattern (e.g. **/*.rs)"@)),
                ("directory"@, builtin::property("string"@, "Root directory to search (default: current)"@)),
            ]
    }

    /// How the tool is described to a model.
    pub open spec fn model() -> ToolModel {
        builtin::described(
            "glob"@,
            "Find files matching a glob pattern."@,
            builtin::schema(GlobTool::properties(), seq!["pattern"@]),
        )
    }

    pub fn name(&self) -> (r: &'static str)
        ensures
            r@ == GlobTool::model().name,
    {
        "glob"
    }

    pub fn description(&self) -> (r: &'static str)
        ensures
            r@ == GlobTool::model().description,
    {
        "Find files matching a glob pattern."
    }

    pub fn parameters(&self) -> (r: Json)
        ensures
            r@ == GlobTool::model().parameters,
    {
        let mut properties: Vec<(String, Json)> = Vec::new();
        json::add_member(
            &mut properties,
            "pattern",
            builtin::property_value("string", "Glob pattern (e.g. **/*.rs)"),
        );
        json::add_member(
            &mut properties,
            "directory",
            builtin::property_value("string", "Root directory to search (default: current)"),
        );
        assert(json::member_views(properties@) =~= GlobTool::properties());
        builtin::schema_value(properties, builtin::one("pattern"))
    }

    pub fn spec(&self) -> (r: LlmTool)
        ensures
            r@ == GlobTool::model(),
    {
        LlmTool::new(self.name(), self.description(), self.parameters())
    }
}

/// Whether a path matches a pattern, where a backslash separates the parts of a path or does
/// not.
pub uninterp spec fn globbed(
    pattern: Seq<char>,
    path: Seq<char>,
    backslash_separates: bool,
) -> bool;

/// A backslash stands in the path.
pub open spec fn has_backslash(path: Seq<char>) -> bool {
    path.contains('\\')
}

/// `glob_match::glob_match`: whether the path matches the pattern. That depends on the two
/// texts and on whether a backslash separates the parts of a path, which is the machine's
/// choice and is not said; for a path without a backslash it is the same either way. Nor is
/// it said which patterns match what.
#[verifier::external_body]
pub(crate) fn glob_match(pattern: &str, path: &str) -> (r: bool)
    ensures
        r == globbed(pattern@, path@, true) || r == globbed(pattern@, path@, false),
        !has_backslash(path@) ==> r == globbed(pattern@, path@, true) && r == globbed(
            pattern@,
            path@,
            false,
        ),
{
    glob_match::glob_match(pattern, path)
}

/// A file that was come across.
pub struct FoundFile {
    pub name: String,
    pub path: String,
}

/// `r` is what is said of a path: whether it matches, by what separates the parts of a path on
/// the machine.
pub open spec fn is_match(pattern: Seq<char>, path: Seq<char>, r: bool) -> bool {
    &&& r == globbed(pattern, path, true) || r == globbed(pattern, path, false)
    &&& !has_backslash(path) ==> r == globbed(pattern, path, true) && r == globbed(
        pattern,
        path,
        false,
    )
}

/// `hit` is what is said of a file: it is found by its name or by its path.
pub open spec fn is_verdict(pattern: Seq<char>, file: FoundFile, hit: bool) -> bool {
    exists|by_name: bool, by_path: bool|
        #![trigger is_match(pattern, file.name@, by_name), is_match(pattern, file.path@, by_path)]
        {
            &&& is_match(pattern, file.name@, by_name)
            &&& is_match(pattern, file.path@, by_path)
            &&& hit == (by_name || by_path)
        }
}

/// The paths of the files that are hits, in their order.
pub open spec fn hit_paths(files: Seq<FoundFile>, hits: Seq<bool>) -> Seq<Seq<char>>
    decreases files.len(),
{
    if files.len() == 0 {
        seq![]
    } else {
        let before = hit_paths(files.drop_last(), hits.drop_last());
        if hits.last() {
            before.push(files.last().path@)
        } else {
            before
        }
    }
}

impl GlobTool {
    /// The pattern and the directory that the arguments ask for.
    pub fn request(&self, args: &Json) -> (r: Result<(String, String), AgentError>)
        ensures
            match json::text_member(args@, "pattern"@) {
                Some(p) => r matches Ok(v) && v.0@ == p && v.1@ == (match json::text_member(
                    args@,
                    "directory"@,
                ) {
                    Some(d) => d,
                    None => "."@,
                }),
                None => r matches Err(AgentError::InvalidToolArguments(m)) && m@ == "pattern"@
                    + " required"@,
            },
    {
        match builtin::required_text(args, "pattern") {
            Ok(pattern) => {
                let directory = match args.get_str("directory") {
                    Some(d) => d.to_string(),
                    None => ".".to_string(),
                };
                Ok((pattern, directory))
            },
            Err(e) => Err(e),
        }
    }

    /// Which of the files the pattern finds: those whose name or whose path matches it.
    pub fn hits(&self, pattern: &str, files: &Vec<FoundFile>) -> (r: Vec<bool>)
        ensures
            r@.len() == files@.len(),
            forall|i: int|
                0 <= i < files@.len() ==> is_verdict(pattern@, files@[i], #[trigger] r@[i]),
            forall|i: int|
                0 <= i < files@.len() && !has_backslash(files@[i].name@) && globbed(
                    pattern@,
                    files@[i].name@,
                    false,
                ) ==> #[trigger] r@[i],
    {
        let mut out: Vec<bool> = Vec::new();
        for i in 0..files.len()
            invariant
                out@.len() == i,
                forall|k: int|
                    0 <= k < i ==> is_verdict(pattern@, files@[k], #[trigger] out@[k]),
        {
            let by_name = glob_match(pattern, files[i].name.as_str());
            let by_path = glob_match(pattern, files[i].path.as_str());
            assert(is_match(pattern@, files@[i as int].name@, by_name));
            assert(is_match(pattern@, files@[i as int].path@, by_path));
            out.push(by_name || by_path);
        }
        out
    }

    /// What to say of the files that are hits.
    pub fn output(&self, files: &Vec<FoundFile>, hits: &Vec<bool>) -> (r: ToolOutput)
        requires
            hits@.len() == files@.len(),
        ensures
            ({
                let found = hit_paths(files@, hits@);
                r matches ToolOutput::Text(t) && t@ == if found.len() == 0 {
                    "No files matched."@
                } else {
                    text::joined(found, "\n"@)
                }
            }),
    {
        let mut found: Vec<String> = Vec::new();
        assert(text::views(found@) =~= seq![]);
        for i in 0..files.len()
            invariant
                hits@.len() == files@.len(),
                text::views(found@) == hit_paths(files@.take(i as int), hits@.take(i as int)),
        {
            assert(files@.take(i + 1).drop_last() =~= files@.take(i as int));
            assert(hits@.take(i + 1).drop_last() =~= hits@.take(i as int));
            if hits[i] {
                let ghost before = text::views(found@);
                found.push(files[i].path.clone());
                assert(text::views(found@) =~= before.push(files@[i as int].path@));
            }
        }
        assert(files@.take(files@.len() as int) =~= files@);
        assert(hits@.take(hits@.len() as int) =~= hits@);
        assert(text::views(found@).len() == found@.len());
        if found.len() == 0 {
            ToolOutput::Text("No files matched.".to_string())
        } else {
            ToolOutput::Text(text::join(&found, "\n"))
        }
    }
}

/// The path of every hit is listed, and as many as there are hits.
pub proof fn law_every_hit_is_listed(files: Seq<FoundFile>, hits: Seq<bool>, i: int)
    requires
        files.len() == hits.len(),
        0 <= i < files.len(),
    ensures
        hits[i] ==> hit_paths(files, hits).contains(files[i].path@),
        hit_paths(files, hits).len() == hits.filter(|hit: bool| hit).len(),
    decreases files.len(),
{
    let s = files.drop_last();
    let t = hits.drop_last();
    reveal(Seq::filter);
    let before = hit_paths(s, t);
    let all = hit_paths(files, hits);
    if s.len() > 0 {
        law_every_hit_is_listed(
            s,
            t,
            if i < s.len() {
                i
            } else {
                0
            },
        );
    } else {
        assert(t.filter(|hit: bool| hit).len() == 0);
    }
    if hits[i] {
        if i < s.len() {
            assert(s[i] == files[i] && t[i] == hits[i]);
            let k = choose|k: int| 0 <= k < before.len() && before[k] == files[i].path@;
            assert(all[k] == files[i].path@);
        } else {
            assert(all[all.len() - 1] == files[i].path@);
        }
    }
}

} // verus!
