//! Searching the contents of files.
use vstd::prelude::*;

use crate::agent::error::AgentError;
use crate::agent::request::{LlmTool, ToolModel};
use crate::agent::tool::{builtin, ToolOutput};
use crate::json::{Json, JsonModel};
use crate::{json, text};

use super::glob;

verus! {

/// Has the contents of files searched.
pub struct GrepTool;

impl GrepTool {
    /// The arguments of the tool.
    pub open spec fn properties() -> Seq<(Seq<char>, JsonModel)> {
        seq![
                ("pattern"@, builtin::property("string"@, "Regex pattern to search for"@)),
                ("path"@, builtin::property("string"@, "File or directory to search"@)),
                ("include"@, builtin::property("string"@, "Glob filter for filenames (e.g. *.rs)"@)),
            ]
    }

    /// How the tool is described to a model.
    pub open spec fn model() -> ToolModel {
        builtin::described(
            "grep"@,
            "Search file contents using a regex pattern."@,
            builtin::schema(GrepTool::properties(), seq!["pattern"@, "path"@]),
        )
    }

    pub fn name(&self) -> (r: &'static str)
        ensures
            r@ == GrepTool::model().name,
    {
        "grep"
    }

    pub fn description(&self) -> (r: &'static str)
        ensures
            r@ == GrepTool::model().description,
    {
        "Search file contents using a regex pattern."
    }

    pub fn parameters(&self) -> (r: Json)
        ensures
            r@ == GrepTool::model().parameters,
    {
        let mut properties: Vec<(String, Json)> = Vec::new();
        json::add_member(
            &mut properties,
            "pattern",
            builtin::property_value("string", "Regex pattern to search for"),
        );
        json::add_member(
            &mut properties,
            "path",
            builtin::property_value("string", "File or directory to search"),
        );
        json::add_member(
            &mut properties,
            "include",
            builtin::property_value("string", "Glob filter for filenames (e.g. *.rs)"),
        );
        assert(json::member_views(properties@) =~= GrepTool::properties());
        builtin::schema_value(properties, text::strings2("pattern", "path"))
    }

    pub fn spec(&self) -> (r: LlmTool)
        ensures
            r@ == GrepTool::model(),
    {
        LlmTool::new(self.name(), self.description(), self.parameters())
    }
}

/// A compiled regular expression of the regular expression library.
#[verifier::external_type_specification]
#[verifier::external_body]
pub struct ExRegex(regex::Regex);

/// The error type of the regular expression library.
#[verifier::external_type_specification]
#[verifier::external_body]
pub struct ExRegexError(regex::Error);

/// Whether a compiled regular expression matches somewhere in a text.
pub uninterp spec fn accepts(re: regex::Regex, line: Seq<char>) -> bool;

/// Whether the regular expression that a pattern stands for matches somewhere in a text.
pub uninterp spec fn matched(pattern: Seq<char>, line: Seq<char>) -> bool;

/// `regex::Regex::new`: what the compiled expression matches depends on the pattern alone.
/// Nothing is said of which patterns can be compiled, since very large ones are refused by
/// the memory that they take.
#[verifier::external_body]
fn compile(pattern: &str) -> (r: Result<regex::Regex, regex::Error>)
    ensures
        r matches Ok(re) ==> forall|line: Seq<char>| #[trigger]
            accepts(re, line) == matched(pattern@, line),
{
    regex::Regex::new(pattern)
}

/// `regex::Regex::is_match`: whether the expression matches somewhere in the text, which
/// depends on the two alone. Nothing is said of which expressions match what.
#[verifier::external_body]
fn is_match(re: &regex::Regex, line: &str) -> (r: bool)
    ensures
        r == accepts(*re, line@),
{
    re.is_match(line)
}

/// The text of an error of the regular expression library. Nothing is said of it.
#[verifier::external_body]
fn regex_error_text(e: &regex::Error) -> (r: String) {
    e.to_string()
}

/// `c` is what the regular expression library makes of a pattern.
pub closed spec fn is_compiled(pattern: &str, c: Result<regex::Regex, regex::Error>) -> bool {
    call_ensures(compile, (pattern,), c)
}

/// `message` is the text that the regular expression library gives to its error `e`.
pub closed spec fn is_regex_error_text(e: regex::Error, message: Seq<char>) -> bool {
    exists|t: String| #[trigger] call_ensures(regex_error_text, (&e,), t) && t@ == message
}

/// A pattern that was compiled.
pub struct LinePattern {
    re: regex::Regex,
    source: String,
}

impl LinePattern {
    /// The text of the pattern.
    pub closed spec fn text(self) -> Seq<char> {
        self.source@
    }

    /// The compiled expression.
    pub closed spec fn expression(self) -> regex::Regex {
        self.re
    }

    /// The compiled expression is that of the pattern.
    pub closed spec fn well_formed(self) -> bool {
        forall|line: Seq<char>| #[trigger] accepts(self.re, line) == matched(self.source@, line)
    }

    /// Compiles a pattern, where the regular expression library does.
    pub fn new(pattern: &str) -> (r: Result<Self, AgentError>)
        ensures
            exists|c: Result<regex::Regex, regex::Error>| #[trigger]
                is_compiled(pattern, c) && match c {
                    Ok(re) => r matches Ok(p) && p.well_formed() && p.expression() == re
                        && p.text() == pattern@,
                    Err(e) => r matches Err(AgentError::InvalidToolArguments(m)) && exists|
                        t: Seq<char>,
                    | #[trigger]
                        is_regex_error_text(e, t) && m@ == "Invalid regex: "@ + t,
                },
    {
        let c = compile(pattern);
        assert(is_compiled(pattern, c));
        match c {
            Ok(re) => Ok(LinePattern { re, source: pattern.to_string() }),
            Err(e) => {
                let why = regex_error_text(&e);
                assert(is_regex_error_text(e, why@));
                let m = text::concat2("Invalid regex: ", why.as_str());
                Err(AgentError::InvalidToolArguments(m))
            },
        }
    }

    /// Which of the lines the pattern matches.
    pub fn hits(&self, lines: &Vec<String>) -> (r: Vec<bool>)
        requires
            self.well_formed(),
        ensures
            r@ == text::views(lines@).map_values(|line: Seq<char>| matched(self.text(), line)),
    {
        let mut out: Vec<bool> = Vec::new();
        for i in 0..lines.len()
            invariant
                self.well_formed(),
                out@.len() == i,
                forall|k: int|
                    0 <= k < i ==> #[trigger] out@[k] == matched(self.text(), lines@[k]@),
        {
            out.push(is_match(&self.re, lines[i].as_str()));
        }
        assert(out@ =~= text::views(lines@).map_values(
            |line: Seq<char>| matched(self.text(), line),
        ));
        out
    }
}

/// What is searched for, and where.
pub struct GrepRequest {
    pub pattern: String,
    pub path: String,
    /// The files of a directory that are searched; all where nothing is said.
    pub filter: Option<String>,
}

/// How a line that was found is shown: with its file and its number.
pub open spec fn shown(path: Seq<char>, number: nat, line: Seq<char>) -> Seq<char> {
    path + ":"@ + text::decimal(number) + ": "@ + line
}

/// The lines of a file that are hits, as they are shown.
pub open spec fn shown_lines(path: Seq<char>, lines: Seq<Seq<char>>, hits: Seq<bool>) -> Seq<
    Seq<char>,
>
    decreases lines.len(),
{
    if lines.len() == 0 {
        seq![]
    } else {
        let before = shown_lines(path, lines.drop_last(), hits.drop_last());
        if hits.last() {
            before.push(shown(path, lines.len(), lines.last()))
        } else {
            before
        }
    }
}

/// The number of results that are shown.
pub const SHOWN_LIMIT: usize = 100;

/// What is said of results.
pub open spec fn result_text(results: Seq<Seq<char>>) -> Seq<char> {
    if results.len() == 0 {
        "No matches found."@
    } else if results.len() > SHOWN_LIMIT {
        text::decimal(results.len()) + " matches (showing first 100):\n"@ + text::joined(
            results.take(SHOWN_LIMIT as int),
            "\n"@,
        )
    } else {
        text::joined(results, "\n"@)
    }
}

impl GrepTool {
    /// What the arguments ask for.
    pub fn request(&self, args: &Json) -> (r: Result<GrepRequest, AgentError>)
        ensures
            ({
                let pattern = json::text_member(args@, "pattern"@);
                let path = json::text_member(args@, "path"@);
                if pattern is None {
                    r matches Err(AgentError::InvalidToolArguments(m)) && m@ == "pattern"@
                        + " required"@
                } else if path is None {
                    r matches Err(AgentError::InvalidToolArguments(m)) && m@ == "path"@
                        + " required"@
                } else {
                    r matches Ok(q) && q.pattern@ == pattern->0 && q.path@ == path->0
                        && text::opt_text(q.filter) == json::text_member(args@, "include"@)
                }
            }),
    {
        let pattern = match builtin::required_text(args, "pattern") {
            Ok(p) => p,
            Err(e) => return Err(e),
        };
        let path = match builtin::required_text(args, "path") {
            Ok(p) => p,
            Err(e) => return Err(e),
        };
        let filter = match args.get_str("include") {
            Some(f) => Some(f.to_string()),
            None => None,
        };
        Ok(GrepRequest { pattern, path, filter })
    }

    /// Whether a file of a directory is searched.
    pub fn takes(&self, filter: &Option<String>, file_name: &str) -> (r: bool)
        ensures
            filter is None ==> r,
            filter is Some ==> glob::is_match(filter->0@, file_name@, r),
    {
        match filter {
            Some(f) => glob::glob_match(f.as_str(), file_name),
            None => true,
        }
    }

    /// Adds the lines of a file that are hits to the results.
    pub fn add_hits(
        &self,
        path: &str,
        lines: &Vec<String>,
        hits: &Vec<bool>,
        results: &mut Vec<String>,
    )
        requires
            hits@.len() == lines@.len(),
        ensures
            text::views(final(results)@) == text::views(old(results)@) + shown_lines(
                path@,
                text::views(lines@),
                hits@,
            ),
    {
        let ghost before = text::views(results@);
        let ghost all = text::views(lines@);
        let n: usize = lines.len();
        assert(before + shown_lines(path@, all.take(0), hits@.take(0)) =~= before);
        for i in 0..n
            invariant
                n == lines@.len() == hits@.len(),
                all == text::views(lines@),
                text::views(results@) == before + shown_lines(
                    path@,
                    all.take(i as int),
                    hits@.take(i as int),
                ),
        {
            let ghost so_far = text::views(results@);
            assert(all.take(i + 1).drop_last() =~= all.take(i as int));
            assert(hits@.take(i + 1).drop_last() =~= hits@.take(i as int));
            if hits[i] {
                let number = text::to_decimal(i as u64 + 1);
                let head = text::concat3(path, ":", number.as_str());
                let line = text::concat3(head.as_str(), ": ", lines[i].as_str());
                assert(line@ == shown(path@, (i + 1) as nat, all[i as int]));
                results.push(line);
                assert(text::views(results@) =~= so_far.push(line@));
            }
            assert(text::views(results@) =~= before + shown_lines(
                path@,
                all.take(i + 1),
                hits@.take(i + 1),
            ));
        }
        assert(all.take(n as int) =~= all);
        assert(hits@.take(n as int) =~= hits@);
    }

    /// Searches what a file holds, and adds the lines that the pattern matches to the
    /// results.
    pub fn search_file(
        &self,
        path: &str,
        content: &str,
        pattern: &LinePattern,
        results: &mut Vec<String>,
    )
        requires
            pattern.well_formed(),
        ensures
            text::views(final(results)@) == text::views(old(results)@) + shown_lines(
                path@,
                text::lines_of(content@),
                text::lines_of(content@).map_values(
                    |line: Seq<char>| matched(pattern.text(), line),
                ),
            ),
    {
        let lines = text::lines(content);
        let hits = pattern.hits(&lines);
        assert(text::views(lines@).len() == lines@.len());
        self.add_hits(path, &lines, &hits, results);
    }

    /// What to say of the results.
    pub fn output(&self, results: &Vec<String>) -> (r: ToolOutput)
        ensures
            r matches ToolOutput::Text(t) && t@ == result_text(text::views(results@)),
    {
        let ghost all = text::views(results@);
        assert(all.len() == results@.len());
        if results.len() == 0 {
            return ToolOutput::Text("No matches found.".to_string());
        }
        if results.len() > SHOWN_LIMIT {
            let mut first: Vec<String> = Vec::new();
            for i in 0..SHOWN_LIMIT
                invariant
                    results@.len() > SHOWN_LIMIT,
                    all == text::views(results@),
                    text::views(first@) == all.take(i as int),
            {
                let ghost before = text::views(first@);
                first.push(results[i].clone());
                assert(text::views(first@) =~= before.push(all[i as int]));
                assert(all.take(i + 1) =~= before.push(all[i as int]));
            }
            let n = text::to_decimal(results.len() as u64);
            let list = text::join(&first, "\n");
            return ToolOutput::Text(
                text::concat3(n.as_str(), " matches (showing first 100):\n", list.as_str()),
            );
        }
        ToolOutput::Text(text::join(results, "\n"))
    }

    /// The error for a place that cannot be searched.
    pub fn not_accessible(&self, path: &str, cause: &str) -> (r: AgentError)
        ensures
            r matches AgentError::Tool(m) && m@ == "Cannot access '"@ + path@ + "': "@ + cause@,
    {
        let head = text::concat3("Cannot access '", path, "': ");
        builtin::tool_failure(head.as_str(), cause)
    }
}

/// Every line that is a hit is shown, with the file and its number, counted from one, and no
/// other is: as many are shown as there are hits.
pub proof fn law_every_hit_is_shown(
    path: Seq<char>,
    lines: Seq<Seq<char>>,
    hits: Seq<bool>,
    i: int,
)
    requires
        lines.len() == hits.len(),
        0 <= i < lines.len(),
    ensures
        hits[i] ==> shown_lines(path, lines, hits).contains(
            path + ":"@ + text::decimal((i + 1) as nat) + ": "@ + lines[i],
        ),
        shown_lines(path, lines, hits).len() == hits.filter(|hit: bool| hit).len(),
    decreases lines.len(),
{
    let s = lines.drop_last();
    let t = hits.drop_last();
    reveal(Seq::filter);
    let before = shown_lines(path, s, t);
    let all = shown_lines(path, lines, hits);
    if s.len() > 0 {
        law_every_hit_is_shown(
            path,
            s,
            t,
            if i < s.len() {
                i
            } else {
                0
            },
        );
    } else {
        assert(t.filter(|hit: bool| hit).len() == 0);
    }
    if hits[i] {
        let line = path + ":"@ + text::decimal((i + 1) as nat) + ": "@ + lines[i];
        if i < s.len() {
            assert(s[i] == lines[i] && t[i] == hits[i]);
            let k = choose|k: int| 0 <= k < before.len() && before[k] == line;
            assert(all[k] == line);
        } else {
            assert(all[all.len() - 1] == line);
        }
    }
}

/// All results are shown, one to a line, up to a hundred; of more the first hundred are shown,
/// and how many there are.
pub proof fn law_results_are_listed(results: Seq<Seq<char>>)
    requires
        results.len() > 0,
    ensures
        results.len() <= 100 ==> result_text(results) == text::joined(results, "\n"@),
        results.len() > 100 ==> text::joined(results.take(100), "\n"@).is_suffix_of(
            result_text(results),
        ) && text::decimal(results.len()).is_prefix_of(result_text(results)),
{
    if results.len() > 100 {
        let list = text::joined(results.take(100), "\n"@);
        let n = text::decimal(results.len());
        let all = result_text(results);
        assert(all.skip(all.len() - list.len()) =~= list);
        assert(all.take(n.len() as int) =~= n);
    }
}

} // verus!
