//! Hooks: checks that a tool call has to pass.
use vstd::prelude::*;

use crate::json;
use crate::json::{Json, JsonModel};
use crate::paths;
use crate::storage;
use crate::storage::{RuleModel, SafetyRule};
use crate::text;

use super::HookDecision;
use crate::agent::message::ToolCall;

verus! {

/// Lets every call pass; calls are reported elsewhere.
pub struct LoggingHook;

impl LoggingHook {
    pub fn before_call(&self, call: &ToolCall) -> (r: HookDecision)
        ensures
            r is Allow,
    {
        HookDecision::Allow
    }
}

/// Lets a call pass whose arguments are a JSON object.
pub struct ValidationHook;

impl ValidationHook {
    pub fn before_call(&self, call: &ToolCall) -> (r: HookDecision)
        ensures
            match json::parsed(call.arguments@) {
                Some(m) => if m is Object {
                    r is Allow
                } else {
                    r matches HookDecision::Block { reason } && reason@ == "Invalid JSON arguments"@
                },
                None => r matches HookDecision::Block { reason } && reason@
                    == "Invalid JSON arguments"@,
            },
    {
        let valid = match json::parse(call.arguments.as_str()) {
            Ok(v) => v.is_object(),
            Err(_) => false,
        };
        if valid {
            HookDecision::Allow
        } else {
            HookDecision::Block { reason: "Invalid JSON arguments".to_string() }
        }
    }
}

// ---------------------------------------------------------------------------
// Safety rules
// ---------------------------------------------------------------------------

/// `d` is what the action of a rule stands for. Anything but `deny` allows.
pub open spec fn is_rule_decision(action: Seq<char>, d: HookDecision) -> bool {
    if action == "deny"@ {
        d matches HookDecision::Block { reason } && reason@ == "Blocked by safety rule (deny)"@
    } else {
        d is Allow
    }
}

fn action_to_decision(action: &str) -> (r: HookDecision)
    ensures
        is_rule_decision(action@, r),
{
    if text::str_eq(action, "deny") {
        HookDecision::Block { reason: "Blocked by safety rule (deny)".to_string() }
    } else {
        HookDecision::Allow
    }
}

/// A pattern without the mark `!` in front of it.
pub open spec fn pattern_core(pattern: Seq<char>) -> Seq<char> {
    if pattern.len() > 0 && pattern[0] == '!' {
        pattern.drop_first()
    } else {
        pattern
    }
}

/// The command matches the pattern: it is the pattern, or starts with what stands before
/// the `*` at the end of the pattern. A `!` in front does not count.
pub open spec fn command_matches(pattern: Seq<char>, command: Seq<char>) -> bool {
    let p = pattern_core(pattern);
    if p.len() > 0 && p.last() == '*' {
        p.drop_last().is_prefix_of(command)
    } else {
        command == p
    }
}

fn pattern_matches_command(pattern: &str, command: &str) -> (r: bool)
    ensures
        r == command_matches(pattern@, command@),
{
    proof {
        reveal_strlit("!");
        reveal_strlit("*");
        assert("!"@ =~= seq!['!']);
        assert("*"@ =~= seq!['*']);
        if pattern@.len() > 0 {
            assert(pattern@.take(1) =~= seq![pattern@[0]]);
            assert(pattern@.subrange(0, 1) =~= seq![pattern@[0]]);
            assert(pattern@.skip(1) =~= pattern@.drop_first());
        }
    }
    let core = match text::strip_prefix(pattern, "!") {
        Some(rest) => rest,
        None => pattern,
    };
    assert(core@ == pattern_core(pattern@)) by {
        if "!"@.is_prefix_of(pattern@) {
            assert(pattern@[0] == '!');
        } else if pattern@.len() > 0 && pattern@[0] == '!' {
            assert("!"@.is_prefix_of(pattern@));
        }
    }
    proof {
        if core@.len() > 0 {
            assert(core@.skip(core@.len() - 1) =~= seq![core@.last()]);
            assert(core@.take(core@.len() - 1) =~= core@.drop_last());
        }
    }
    match text::strip_suffix(core, "*") {
        Some(prefix) => {
            assert(core@.last() == '*');
            text::starts_with(command, prefix)
        },
        None => {
            assert(!(core@.len() > 0 && core@.last() == '*')) by {
                if core@.len() > 0 && core@.last() == '*' {
                    assert("*"@.is_suffix_of(core@));
                }
            }
            text::str_eq(command, core)
        },
    }
}

/// A path with `/` as its only separator.
pub open spec fn with_slashes(path: Seq<char>) -> Seq<char> {
    path.map_values(
        |c: char|
            if c == '\\' {
                '/'
            } else {
                c
            },
    )
}

fn slashed(path: &str) -> (r: String)
    ensures
        r@ == with_slashes(path@),
{
    let v = text::chars_of(path);
    let mut out = String::new();
    for i in 0..v.len()
        invariant
            v@ == path@,
            out@ == with_slashes(path@.take(i as int)),
    {
        let ghost before = out@;
        if v[i] == '\\' {
            out.push('/');
        } else {
            out.push(v[i]);
        }
        assert(out@ =~= with_slashes(path@.take(i + 1)));
    }
    assert(path@.take(path@.len() as int) =~= path@);
    out
}

/// The directory that an entry of a scope names: `~/` stands for the user's home.
pub open spec fn scope_dir(entry: Seq<char>, home: Seq<char>) -> Seq<char> {
    if "~/"@.is_prefix_of(entry) {
        paths::joined_path(home, entry.skip(2))
    } else {
        entry
    }
}

/// `path` is the directory `dir` or lies below it; both are written with `/`. Everything
/// lies below the empty directory name.
pub open spec fn lies_within(path: Seq<char>, dir: Seq<char>) -> bool {
    ||| dir.len() == 0
    ||| path == dir
    ||| dir.is_prefix_of(path) && (dir.last() == '/' || path[dir.len() as int] == '/')
}

/// The path lies within one of the directories of the scope.
pub open spec fn in_scope(path: Seq<char>, scope: Seq<Seq<char>>, home: Seq<char>) -> bool {
    exists|i: int|
        0 <= i < scope.len() && lies_within(
            with_slashes(path),
            with_slashes(scope_dir(#[trigger] scope[i], home)),
        )
}

fn is_within(path: &str, dir: &str) -> (r: bool)
    ensures
        r == lies_within(path@, dir@),
{
    if dir.is_empty() || text::str_eq(path, dir) {
        return true;
    }
    if !text::starts_with(path, dir) {
        return false;
    }
    let p = text::chars_of(path);
    let d = text::chars_of(dir);
    if d[d.len() - 1] == '/' {
        return true;
    }
    if p.len() == d.len() {
        assert(path@ =~= dir@);
        return true;
    }
    p[d.len()] == '/'
}

fn path_in_scope(path: &str, scope: &Vec<String>, home: &str) -> (r: bool)
    ensures
        r == in_scope(path@, text::views(scope@), home@),
{
    let p = slashed(path);
    let ghost all = text::views(scope@);
    for i in 0..scope.len()
        invariant
            all == text::views(scope@),
            p@ == with_slashes(path@),
            forall|j: int|
                0 <= j < i ==> !lies_within(
                    with_slashes(path@),
                    with_slashes(scope_dir(#[trigger] all[j], home@)),
                ),
    {
        let entry = scope[i].as_str();
        assert(all[i as int] == entry@);
        proof {
            reveal_strlit("~/");
        }
        let dir = match text::strip_prefix(entry, "~/") {
            Some(rest) => paths::join(home, rest),
            None => entry.to_string(),
        };
        let d = slashed(dir.as_str());
        if is_within(p.as_str(), d.as_str()) {
            return true;
        }
    }
    false
}

/// What a call is judged by.
pub struct CallFacts {
    pub tool: Seq<char>,
    pub command: Seq<char>,
    pub path: Seq<char>,
    pub home: Seq<char>,
}

/// The ways in which a rule can apply to a call, the strongest first.
#[derive(Clone, Copy, PartialEq, Eq, Structural)]
pub enum RuleLevel {
    /// The rule is about the tool, and its pattern matches the command.
    Command,
    /// The rule is about the tool, and the path lies within its scope.
    Path,
    /// The rule is about the tool as a whole.
    Tool,
    /// The rule is about all tools.
    Wildcard,
}

pub open spec fn applies(rule: RuleModel, level: RuleLevel, call: CallFacts) -> bool {
    match level {
        RuleLevel::Command => rule.tool == call.tool && match rule.command_pattern {
            Some(p) => command_matches(p, call.command),
            None => false,
        },
        RuleLevel::Path => rule.tool == call.tool && match rule.path_scope {
            Some(s) => call.path.len() > 0 && in_scope(call.path, s, call.home),
            None => false,
        },
        RuleLevel::Tool => rule.tool == call.tool && rule.command_pattern is None
            && rule.path_scope is None,
        RuleLevel::Wildcard => rule.tool == "*"@ && rule.command_pattern is None
            && rule.path_scope is None,
    }
}

/// The first rule that applies on a level.
pub open spec fn first_applying(rules: Seq<RuleModel>, level: RuleLevel, call: CallFacts) -> Option<
    RuleModel,
>
    decreases rules.len(),
{
    if rules.len() == 0 {
        None
    } else if applies(rules[0], level, call) {
        Some(rules[0])
    } else {
        first_applying(rules.drop_first(), level, call)
    }
}

/// The rule that decides about a call: the first that applies on the strongest level on
/// which any does.
pub open spec fn deciding_rule(rules: Seq<RuleModel>, call: CallFacts) -> Option<RuleModel> {
    match first_applying(rules, RuleLevel::Command, call) {
        Some(r) => Some(r),
        None => match first_applying(rules, RuleLevel::Path, call) {
            Some(r) => Some(r),
            None => match first_applying(rules, RuleLevel::Tool, call) {
                Some(r) => Some(r),
                None => first_applying(rules, RuleLevel::Wildcard, call),
            },
        },
    }
}

fn rule_applies(
    rule: &SafetyRule,
    level: RuleLevel,
    tool_name: &str,
    command: &str,
    path: &str,
    home: &str,
) -> (r: bool)
    ensures
        r == applies(
            rule@,
            level,
            CallFacts { tool: tool_name@, command: command@, path: path@, home: home@ },
        ),
{
    match level {
        RuleLevel::Command => text::str_eq(rule.tool.as_str(), tool_name) && match &rule.command_pattern {
            Some(p) => pattern_matches_command(p.as_str(), command),
            None => false,
        },
        RuleLevel::Path => text::str_eq(rule.tool.as_str(), tool_name) && match &rule.path_scope {
            Some(s) => !path.is_empty() && path_in_scope(path, s, home),
            None => false,
        },
        RuleLevel::Tool => text::str_eq(rule.tool.as_str(), tool_name)
            && rule.command_pattern.is_none() && rule.path_scope.is_none(),
        RuleLevel::Wildcard => text::str_eq(rule.tool.as_str(), "*")
            && rule.command_pattern.is_none() && rule.path_scope.is_none(),
    }
}

fn find_rule(
    rules: &Vec<SafetyRule>,
    level: RuleLevel,
    tool_name: &str,
    command: &str,
    path: &str,
    home: &str,
) -> (r: Option<usize>)
    ensures
        ({
            let found = first_applying(
                storage::rule_views(rules@),
                level,
                CallFacts { tool: tool_name@, command: command@, path: path@, home: home@ },
            );
            &&& r is Some <==> found is Some
            &&& r matches Some(i) ==> i < rules@.len() && found == Some(rules@[i as int]@)
        }),
{
    let ghost all = storage::rule_views(rules@);
    let ghost call = CallFacts { tool: tool_name@, command: command@, path: path@, home: home@ };
    assert(all.skip(0) =~= all);
    for i in 0..rules.len()
        invariant
            all == storage::rule_views(rules@),
            call == (CallFacts { tool: tool_name@, command: command@, path: path@, home: home@ }),
            first_applying(all, level, call) == first_applying(all.skip(i as int), level, call),
    {
        assert(all.skip(i as int)[0] == rules@[i as int]@);
        assert(all.skip(i as int).drop_first() =~= all.skip(i + 1));
        if rule_applies(&rules[i], level, tool_name, command, path, home) {
            return Some(i);
        }
    }
    None
}

/// What the rules say about a call, if any of them applies. `home` is the user's home
/// directory.
pub fn evaluate_safety_rules(
    rules: &Vec<SafetyRule>,
    tool_name: &str,
    command: &str,
    path: &str,
    home: &str,
) -> (r: Option<HookDecision>)
    ensures
        ({
            let rule = deciding_rule(
                storage::rule_views(rules@),
                CallFacts { tool: tool_name@, command: command@, path: path@, home: home@ },
            );
            &&& r is Some <==> rule is Some
            &&& r matches Some(d) ==> is_rule_decision(rule->0.action, d)
        }),
{
    if let Some(i) = find_rule(rules, RuleLevel::Command, tool_name, command, path, home) {
        return Some(action_to_decision(rules[i].action.as_str()));
    }
    if let Some(i) = find_rule(rules, RuleLevel::Path, tool_name, command, path, home) {
        return Some(action_to_decision(rules[i].action.as_str()));
    }
    if let Some(i) = find_rule(rules, RuleLevel::Tool, tool_name, command, path, home) {
        return Some(action_to_decision(rules[i].action.as_str()));
    }
    if let Some(i) = find_rule(rules, RuleLevel::Wildcard, tool_name, command, path, home) {
        return Some(action_to_decision(rules[i].action.as_str()));
    }
    None
}

/// A rule about all tools never overrules one about the tool itself, and a rule about
/// the tool as a whole never overrules one whose pattern matches the command.
pub proof fn law_specific_rules_win(rules: Seq<RuleModel>, call: CallFacts)
    ensures
        first_applying(rules, RuleLevel::Command, call) is Some ==> deciding_rule(rules, call)
            == first_applying(rules, RuleLevel::Command, call),
        first_applying(rules, RuleLevel::Tool, call) is Some ==> deciding_rule(rules, call) is Some
            && deciding_rule(rules, call)->0.tool == call.tool,
{
    lemma_first_applies(rules, RuleLevel::Command, call);
    lemma_first_applies(rules, RuleLevel::Path, call);
    lemma_first_applies(rules, RuleLevel::Tool, call);
}

proof fn lemma_first_applies(rules: Seq<RuleModel>, level: RuleLevel, call: CallFacts)
    ensures
        first_applying(rules, level, call) matches Some(r) ==> applies(r, level, call)
            && rules.contains(r),
    decreases rules.len(),
{
    if rules.len() > 0 && !applies(rules[0], level, call) {
        let t = rules.drop_first();
        lemma_first_applies(t, level, call);
        if let Some(r) = first_applying(t, level, call) {
            let i = choose|i: int| 0 <= i < t.len() && t[i] == r;
            assert(rules[i + 1] == r);
        }
    } else if rules.len() > 0 {
        assert(rules.contains(rules[0]));
    }
}

/// Where some rule decides, it is one of the rules and it applies; where none decides, no
/// rule applies on any level.
pub proof fn law_decision_comes_from_a_rule(rules: Seq<RuleModel>, call: CallFacts)
    ensures
        deciding_rule(rules, call) matches Some(r) ==> rules.contains(r) && (applies(
            r,
            RuleLevel::Command,
            call,
        ) || applies(r, RuleLevel::Path, call) || applies(r, RuleLevel::Tool, call) || applies(
            r,
            RuleLevel::Wildcard,
            call,
        )),
        deciding_rule(rules, call) is None ==> forall|i: int, level: RuleLevel|
            0 <= i < rules.len() ==> !(#[trigger] applies(rules[i], level, call)),
{
    lemma_first_applies(rules, RuleLevel::Command, call);
    lemma_first_applies(rules, RuleLevel::Path, call);
    lemma_first_applies(rules, RuleLevel::Tool, call);
    lemma_first_applies(rules, RuleLevel::Wildcard, call);
    lemma_none_applies(rules, RuleLevel::Command, call);
    lemma_none_applies(rules, RuleLevel::Path, call);
    lemma_none_applies(rules, RuleLevel::Tool, call);
    lemma_none_applies(rules, RuleLevel::Wildcard, call);
    if deciding_rule(rules, call) is None {
        assert forall|i: int, level: RuleLevel| 0 <= i < rules.len() implies !(#[trigger] applies(
            rules[i],
            level,
            call,
        )) by {
            match level {
                RuleLevel::Command => {},
                RuleLevel::Path => {},
                RuleLevel::Tool => {},
                RuleLevel::Wildcard => {},
            }
        }
    }
}

proof fn lemma_none_applies(rules: Seq<RuleModel>, level: RuleLevel, call: CallFacts)
    ensures
        first_applying(rules, level, call) is None ==> forall|i: int|
            0 <= i < rules.len() ==> !applies(#[trigger] rules[i], level, call),
    decreases rules.len(),
{
    if rules.len() > 0 && first_applying(rules, level, call) is None {
        let t = rules.drop_first();
        lemma_none_applies(t, level, call);
        assert forall|i: int| 0 <= i < rules.len() implies !applies(
            #[trigger] rules[i],
            level,
            call,
        ) by {
            if i > 0 {
                assert(rules[i] == t[i - 1]);
            }
        }
    }
}

// ---------------------------------------------------------------------------
// The safety hook
// ---------------------------------------------------------------------------

/// The text that the member `key` is, or `other`.
pub open spec fn member_or(m: JsonModel, key: Seq<char>, other: Seq<char>) -> Seq<char> {
    match json::text_member(m, key) {
        Some(t) => t,
        None => other,
    }
}

/// What the user is shown of a call that waits for a confirmation. `compact` is the
/// compact text of the arguments.
pub open spec fn call_summary(tool: Seq<char>, args: JsonModel, compact: Seq<char>) -> Seq<char> {
    if tool == "bash"@ {
        "bash: "@ + member_or(args, "command"@, "(unknown)"@)
    } else if tool == "file_write"@ {
        "file_write: "@ + member_or(args, "path"@, "(unknown)"@)
    } else if tool == "file_edit"@ {
        "file_edit: "@ + member_or(args, "path"@, "(unknown)"@)
    } else {
        tool + ": "@ + compact
    }
}

pub fn build_summary(tool_name: &str, args: &Json, compact: &str) -> (r: String)
    ensures
        r@ == call_summary(tool_name@, args@, compact@),
{
    if text::str_eq(tool_name, "bash") {
        text::concat2("bash: ", text_or(args, "command", "(unknown)"))
    } else if text::str_eq(tool_name, "file_write") {
        text::concat2("file_write: ", text_or(args, "path", "(unknown)"))
    } else if text::str_eq(tool_name, "file_edit") {
        text::concat2("file_edit: ", text_or(args, "path", "(unknown)"))
    } else {
        text::concat3(tool_name, ": ", compact)
    }
}

fn text_or<'a>(args: &'a Json, key: &str, other: &'a str) -> (r: &'a str)
    ensures
        r@ == member_or(args@, key@, other@),
{
    match args.get_str(key) {
        Some(t) => t,
        None => other,
    }
}

/// Judges calls by the rules, and asks the user where they are silent.
pub struct SafetyHook {
    pub rules: Vec<SafetyRule>,
    /// `allow`, `deny`, or anything else for asking.
    pub default_policy: String,
}

/// What the safety hook says of a call.
pub enum SafetyVerdict {
    Decided(HookDecision),
    /// Ask the user, and go on with `confirmation_decision`.
    Confirm { summary: String },
}

/// `v` is what the rules and the policy say of a call with these arguments.
pub open spec fn is_safety_verdict(
    rules: Seq<RuleModel>,
    policy: Seq<char>,
    call: CallFacts,
    summary: Seq<char>,
    v: SafetyVerdict,
) -> bool {
    match deciding_rule(rules, call) {
        Some(rule) => v matches SafetyVerdict::Decided(d) && is_rule_decision(rule.action, d),
        None => if policy == "deny"@ {
            v matches SafetyVerdict::Decided(HookDecision::Block { reason }) && reason@
                == "Blocked by default safety policy (deny)"@
        } else if policy == "allow"@ {
            v matches SafetyVerdict::Decided(HookDecision::Allow)
        } else {
            v matches SafetyVerdict::Confirm { summary: s } && s@ == summary
        },
    }
}

impl SafetyHook {
    pub fn new(rules: Vec<SafetyRule>, default_policy: String) -> (r: Self)
        ensures
            r.rules == rules,
            r.default_policy == default_policy,
    {
        SafetyHook { rules, default_policy }
    }

    pub fn add_rule(&mut self, rule: SafetyRule)
        ensures
            final(self).rules@ == old(self).rules@.push(rule),
            final(self).default_policy == old(self).default_policy,
    {
        self.rules.push(rule);
    }

    /// Judges a call by its arguments. `compact` is their compact text.
    pub fn judge(&self, tool_name: &str, args: &Json, compact: &str, home: &str) -> (r:
        SafetyVerdict)
        ensures
            is_safety_verdict(
                storage::rule_views(self.rules@),
                self.default_policy@,
                CallFacts {
                    tool: tool_name@,
                    command: member_or(args@, "command"@, ""@),
                    path: member_or(args@, "path"@, ""@),
                    home: home@,
                },
                call_summary(tool_name@, args@, compact@),
                r,
            ),
    {
        let command = text_or(args, "command", "");
        let path = text_or(args, "path", "");
        match evaluate_safety_rules(&self.rules, tool_name, command, path, home) {
            Some(decision) => SafetyVerdict::Decided(decision),
            None => if text::str_eq(self.default_policy.as_str(), "deny") {
                SafetyVerdict::Decided(
                    HookDecision::Block {
                        reason: "Blocked by default safety policy (deny)".to_string(),
                    },
                )
            } else if text::str_eq(self.default_policy.as_str(), "allow") {
                SafetyVerdict::Decided(HookDecision::Allow)
            } else {
                SafetyVerdict::Confirm { summary: build_summary(tool_name, args, compact) }
            },
        }
    }

    /// Judges a call. Arguments that are no JSON count as none.
    pub fn before_call(&self, call: &ToolCall, home: &str) -> (r: SafetyVerdict)
        ensures
            ({
                let args = json::parsed_or_empty(call.arguments@);
                is_safety_verdict(
                    storage::rule_views(self.rules@),
                    self.default_policy@,
                    CallFacts {
                        tool: call.name@,
                        command: member_or(args, "command"@, ""@),
                        path: member_or(args, "path"@, ""@),
                        home: home@,
                    },
                    call_summary(call.name@, args, json::compact_or_empty(call.arguments@)),
                    r,
                )
            }),
    {
        let (args, compact) = json::parse_or_empty(call.arguments.as_str());
        self.judge(call.name.as_str(), &args, compact.as_str(), home)
    }
}

/// How long the user has to confirm a call.
pub const CONFIRMATION_TIMEOUT_SECS: u64 = 30;

/// What came of asking the user.
pub enum Confirmation {
    Answered(HookDecision),
    /// The question could not be asked.
    Unavailable,
    /// The answer can no longer come.
    Closed,
    TimedOut,
}

/// `r` is what an attempt to ask the user says of the call. Anything but an answer blocks it.
pub open spec fn is_confirmation_decision(c: Confirmation, r: HookDecision) -> bool {
    match c {
        Confirmation::Answered(d) => r == d,
        Confirmation::Unavailable => r matches HookDecision::Block { reason } && reason@
            == "Safety hook internal error (pending lock poisoned)"@,
        Confirmation::Closed => r matches HookDecision::Block { reason } && reason@
            == "Confirmation channel closed unexpectedly"@,
        Confirmation::TimedOut => r matches HookDecision::Block { reason } && reason@
            == "操作已被拒绝：用户未在 30 秒内确认，该操作被自动取消。请尝试其他方案。"@,
    }
}

/// What an attempt to ask the user says of the call.
pub fn confirmation_decision(c: Confirmation) -> (r: HookDecision)
    ensures
        is_confirmation_decision(c, r),
{
    match c {
        Confirmation::Answered(d) => d,
        Confirmation::Unavailable => HookDecision::Block {
            reason: "Safety hook internal error (pending lock poisoned)".to_string(),
        },
        Confirmation::Closed => HookDecision::Block {
            reason: "Confirmation channel closed unexpectedly".to_string(),
        },
        Confirmation::TimedOut => HookDecision::Block {
            reason:
                "操作已被拒绝：用户未在 30 秒内确认，该操作被自动取消。请尝试其他方案。".to_string(),
        },
    }
}

/// `r` is the decision behind the user's answer to a question.
pub open spec fn is_response(decision: Seq<char>, r: Result<HookDecision, String>) -> bool {
    if decision == "allow"@ {
        r matches Ok(HookDecision::Allow)
    } else if decision == "deny"@ {
        r matches Ok(HookDecision::Block { reason }) && reason@
            == "操作已被用户拒绝。请尝试其他方案。"@
    } else {
        r matches Err(e) && e@ == "Unknown decision: "@ + decision
    }
}

/// The decision behind the user's answer to a question.
pub fn respond_confirmation(decision: &str) -> (r: Result<HookDecision, String>)
    ensures
        is_response(decision@, r),
{
    if text::str_eq(decision, "allow") {
        Ok(HookDecision::Allow)
    } else if text::str_eq(decision, "deny") {
        Ok(
            HookDecision::Block {
                reason: "操作已被用户拒绝。请尝试其他方案。".to_string(),
            },
        )
    } else {
        Err(text::concat2("Unknown decision: ", decision))
    }
}

// ---------------------------------------------------------------------------
// Laws of verdicts
// ---------------------------------------------------------------------------

/// The verdict is what a rule with this action says: `deny` blocks, anything else allows.
pub open spec fn says(v: SafetyVerdict, action: Seq<char>) -> bool {
    v matches SafetyVerdict::Decided(d) && if action == "deny"@ {
        d is Block
    } else {
        d is Allow
    }
}

proof fn lemma_found_first(rules: Seq<RuleModel>, level: RuleLevel, call: CallFacts, i: int)
    requires
        0 <= i < rules.len(),
        applies(rules[i], level, call),
        forall|j: int| 0 <= j < i ==> !applies(#[trigger] rules[j], level, call),
    ensures
        first_applying(rules, level, call) == Some(rules[i]),
    decreases rules.len(),
{
    if i > 0 {
        let t = rules.drop_first();
        assert(!applies(rules[0], level, call));
        assert forall|j: int| 0 <= j < i - 1 implies !applies(#[trigger] t[j], level, call) by {
            assert(t[j] == rules[j + 1]);
        }
        lemma_found_first(t, level, call, i - 1);
    }
}

/// A rule about a command decides about it, whatever the policy and the other rules say, where
/// it is the first of the rules for the tool that are about commands. It is about the command
/// that it names in full, or, with a star at its end, about all commands that begin so.
pub proof fn law_a_rule_about_the_command_decides(
    rules: Seq<RuleModel>,
    policy: Seq<char>,
    call: CallFacts,
    summary: Seq<char>,
    v: SafetyVerdict,
    i: int,
)
    requires
        is_safety_verdict(rules, policy, call, summary, v),
        0 <= i < rules.len(),
        rules[i].tool == call.tool,
        rules[i].command_pattern matches Some(p) && p.len() > 0 && p[0] != '!' && (p.last() != '*'
            && p == call.command || p.last() == '*' && p.drop_last().is_prefix_of(call.command)),
        forall|j: int|
            0 <= j < i ==> (#[trigger] rules[j]).tool != call.tool || rules[j].command_pattern is None,
    ensures
        says(v, rules[i].action),
{
    lemma_found_first(rules, RuleLevel::Command, call, i);
}

/// A rule about a directory decides about the paths below it, where no rule for the tool is
/// about commands and none before it is about directories.
pub proof fn law_a_rule_about_the_path_decides(
    rules: Seq<RuleModel>,
    policy: Seq<char>,
    call: CallFacts,
    summary: Seq<char>,
    v: SafetyVerdict,
    i: int,
    dir: Seq<char>,
    below: Seq<char>,
)
    requires
        is_safety_verdict(rules, policy, call, summary, v),
        0 <= i < rules.len(),
        rules[i].tool == call.tool,
        rules[i].path_scope == Some(seq![dir]),
        call.path == dir.push('/') + below,
        dir.len() > 0 && dir[0] != '~',
        forall|j: int|
            0 <= j < rules.len() ==> (#[trigger] rules[j]).tool != call.tool
                || rules[j].command_pattern is None,
        forall|j: int|
            0 <= j < i ==> (#[trigger] rules[j]).tool != call.tool || rules[j].path_scope is None,
    ensures
        says(v, rules[i].action),
{
    reveal_strlit("~/");
    let scope = seq![dir];
    assert("~/"@[0] == '~');
    assert(!"~/"@.is_prefix_of(dir));
    let p = with_slashes(call.path);
    let d = with_slashes(dir);
    assert(p.len() == d.len() + 1 + below.len());
    assert(p[d.len() as int] == '/');
    assert(d =~= p.take(d.len() as int));
    assert(scope[0] == dir);
    assert(lies_within(p, with_slashes(scope_dir(scope[0], call.home))));
    assert(in_scope(call.path, scope, call.home));
    lemma_found_first(rules, RuleLevel::Path, call, i);
    lemma_none_on(rules, RuleLevel::Command, call);
}

proof fn lemma_none_on(rules: Seq<RuleModel>, level: RuleLevel, call: CallFacts)
    requires
        forall|j: int| 0 <= j < rules.len() ==> !applies(#[trigger] rules[j], level, call),
    ensures
        first_applying(rules, level, call) is None,
{
    lemma_first_applies(rules, level, call);
    if let Some(r) = first_applying(rules, level, call) {
        let k = choose|k: int| 0 <= k < rules.len() && rules[k] == r;
        assert(!applies(rules[k], level, call));
    }
}

/// A rule about the tool as a whole decides where no rule for the tool is about commands or
/// directories; and a rule about all tools where none is about this one. Of several the first
/// counts.
pub proof fn law_general_rules_decide_last(
    rules: Seq<RuleModel>,
    policy: Seq<char>,
    call: CallFacts,
    summary: Seq<char>,
    v: SafetyVerdict,
    i: int,
)
    requires
        is_safety_verdict(rules, policy, call, summary, v),
        0 <= i < rules.len(),
        rules[i].command_pattern is None && rules[i].path_scope is None,
        forall|j: int|
            0 <= j < rules.len() && (#[trigger] rules[j]).tool == call.tool
                ==> rules[j].command_pattern is None && rules[j].path_scope is None,
        rules[i].tool == call.tool && (forall|j: int|
            0 <= j < i ==> (#[trigger] rules[j]).tool != call.tool) || (rules[i].tool == "*"@ && (
        forall|j: int| 0 <= j < rules.len() ==> (#[trigger] rules[j]).tool != call.tool) && forall|
            j: int,
        |
            0 <= j < i ==> (#[trigger] rules[j]).tool != "*"@),
    ensures
        says(v, rules[i].action),
{
    lemma_none_on(rules, RuleLevel::Command, call);
    lemma_none_on(rules, RuleLevel::Path, call);
    if rules[i].tool == call.tool && (forall|j: int|
        0 <= j < i ==> (#[trigger] rules[j]).tool != call.tool) {
        lemma_found_first(rules, RuleLevel::Tool, call, i);
    } else {
        lemma_none_on(rules, RuleLevel::Tool, call);
        lemma_found_first(rules, RuleLevel::Wildcard, call, i);
    }
}

/// Where no rule is about the tool or about all tools, the policy decides: `deny` blocks,
/// `allow` allows, and otherwise the user is asked, and shown what would be done.
pub proof fn law_the_policy_decides_without_rules(
    rules: Seq<RuleModel>,
    policy: Seq<char>,
    call: CallFacts,
    summary: Seq<char>,
    v: SafetyVerdict,
)
    requires
        is_safety_verdict(rules, policy, call, summary, v),
        forall|j: int|
            0 <= j < rules.len() ==> (#[trigger] rules[j]).tool != call.tool && rules[j].tool
                != "*"@,
    ensures
        policy == "deny"@ ==> (v matches SafetyVerdict::Decided(d) && d is Block),
        policy == "allow"@ ==> (v matches SafetyVerdict::Decided(d) && d is Allow),
        policy != "deny"@ && policy != "allow"@ ==> (v matches SafetyVerdict::Confirm { summary: s }
            && s@ == summary),
{
    reveal_strlit("deny");
    reveal_strlit("allow");
    assert("deny"@.len() == 4);
    assert("allow"@.len() == 5);
    lemma_none_on(rules, RuleLevel::Command, call);
    lemma_none_on(rules, RuleLevel::Path, call);
    lemma_none_on(rules, RuleLevel::Tool, call);
    lemma_none_on(rules, RuleLevel::Wildcard, call);
}

/// A directory holds what is named below it, however the separators are written, and itself;
/// it does not hold what merely begins with the same characters, nor what begins otherwise.
pub proof fn law_a_directory_holds_what_is_below_it(
    dir: Seq<char>,
    below: Seq<char>,
    c: char,
    other: Seq<char>,
    home: Seq<char>,
)
    requires
        dir.len() > 0 && dir[0] != '~',
        dir.last() != '/' && dir.last() != '\\',
        c != '/' && c != '\\',
        !with_slashes(dir).is_prefix_of(with_slashes(other)),
    ensures
        in_scope(dir, seq![dir], home),
        in_scope(dir.push('/') + below, seq![dir], home),
        in_scope(dir.push('\\') + below, seq![dir], home),
        !in_scope(dir.push(c) + below, seq![dir], home),
        !in_scope(other, seq![dir], home),
{
    reveal_strlit("~/");
    assert("~/"@[0] == '~');
    assert(!"~/"@.is_prefix_of(dir));
    let scope = seq![dir];
    assert(scope[0] == dir);
    assert(scope_dir(scope[0], home) == dir);
    let d = with_slashes(dir);
    assert(d.last() != '/');
    let a = with_slashes(dir.push('/') + below);
    let b = with_slashes(dir.push('\\') + below);
    let e = with_slashes(dir.push(c) + below);
    assert(d =~= a.take(d.len() as int));
    assert(d =~= b.take(d.len() as int));
    assert(lies_within(d, with_slashes(scope_dir(scope[0], home))));
    assert(lies_within(a, with_slashes(scope_dir(scope[0], home))));
    assert(lies_within(b, with_slashes(scope_dir(scope[0], home))));
    assert(e[d.len() as int] == c);
    assert(e.len() > d.len());
    assert(!lies_within(e, d));
    let o = with_slashes(other);
    assert(!lies_within(o, d)) by {
        if o == d {
            assert(d =~= d.take(d.len() as int));
        }
    }
}

/// `~/` stands for the user's home directory.
pub proof fn law_a_tilde_stands_for_home(home: Seq<char>, name: Seq<char>, below: Seq<char>)
    requires
        home.len() > 0,
        home.last() != '/' && home.last() != '\\',
        name.len() > 0,
        !paths::is_separator(name[0]) && !paths::has_drive(name) && !paths::has_drive(home),
    ensures
        in_scope(
            (home.push('/') + name).push('/') + below,
            seq![seq!['~', '/'] + name],
            home,
        ),
{
    reveal_strlit("~/");
    reveal_strlit("/");
    let entry = seq!['~', '/'] + name;
    assert("~/"@ =~= entry.take(2));
    assert("~/"@.is_prefix_of(entry));
    assert(entry.skip(2) =~= name);
    assert(home + "/"@ + name =~= home.push('/') + name);
    let dir = home.push('/') + name;
    assert(scope_dir(entry, home) == dir);
    let scope = seq![entry];
    assert(scope[0] == entry);
    let p = with_slashes(dir.push('/') + below);
    let d = with_slashes(dir);
    assert(d =~= p.take(d.len() as int));
    assert(p[d.len() as int] == '/');
    assert(lies_within(p, with_slashes(scope_dir(scope[0], home))));
}

/// A user who is asked about a command sees the command, and one who is asked about a file
/// sees its path; of other tools the arguments are shown. The name of the tool stands before.
pub proof fn law_the_user_sees_what_would_be_done(
    tool: Seq<char>,
    args: JsonModel,
    compact: Seq<char>,
)
    ensures
        tool.is_prefix_of(call_summary(tool, args, compact)),
        tool == "bash"@ ==> (json::text_member(args, "command"@) matches Some(c)
            ==> c.is_suffix_of(call_summary(tool, args, compact))),
        tool == "file_write"@ ==> (json::text_member(args, "path"@) matches Some(p)
            ==> p.is_suffix_of(call_summary(tool, args, compact))),
        tool != "bash"@ && tool != "file_write"@ && tool != "file_edit"@ ==> compact.is_suffix_of(
            call_summary(tool, args, compact),
        ),
{
    reveal_strlit("bash");
    reveal_strlit("file_write");
    reveal_strlit("file_edit");
    reveal_strlit("bash: ");
    reveal_strlit("file_write: ");
    reveal_strlit("file_edit: ");
    assert("bash"@.len() == 4 && "file_write"@.len() == 10 && "file_edit"@.len() == 9);
    assert("bash: "@.take(4) =~= "bash"@);
    assert("file_write: "@.take(10) =~= "file_write"@);
    assert("file_edit: "@.take(9) =~= "file_edit"@);
    let s = call_summary(tool, args, compact);
    assert(s.take(tool.len() as int) =~= tool);
    if tool == "bash"@ {
        let c = member_or(args, "command"@, "(unknown)"@);
        assert(s.skip(s.len() - c.len()) =~= c);
    } else if tool == "file_write"@ || tool == "file_edit"@ {
        let p = member_or(args, "path"@, "(unknown)"@);
        assert(s.skip(s.len() - p.len()) =~= p);
    } else {
        assert(s.skip(s.len() - compact.len()) =~= compact);
    }
}

/// Nothing is allowed that the user has not allowed: without an answer a call is blocked, and
/// an answer allows it only where it says so.
pub proof fn law_only_the_user_can_allow(
    c: Confirmation,
    d: HookDecision,
    decision: Seq<char>,
    r: Result<HookDecision, String>,
)
    requires
        is_confirmation_decision(c, d),
        is_response(decision, r),
    ensures
        d is Allow ==> c == Confirmation::Answered(HookDecision::Allow),
        !(c is Answered) ==> d is Block,
        r == Ok::<HookDecision, String>(HookDecision::Allow) <==> decision == "allow"@,
        decision == "deny"@ ==> r is Ok && r->Ok_0 is Block,
        decision != "allow"@ && decision != "deny"@ ==> r is Err,
{
    reveal_strlit("allow");
    reveal_strlit("deny");
    assert("allow"@.len() == 5);
    assert("deny"@.len() == 4);
}

/// A pattern is about the commands that it names and no others: one command, or with a star at
/// its end all that begin as it does. An exclamation mark in front changes nothing.
pub proof fn law_a_pattern_is_about_its_commands_only(p: Seq<char>, command: Seq<char>)
    requires
        p.len() > 0,
        p[0] != '!',
    ensures
        p.last() != '*' ==> (command_matches(p, command) <==> command == p),
        p.last() == '*' ==> (command_matches(p, command) <==> p.drop_last().is_prefix_of(command)),
        command_matches(seq!['!'] + p, command) == command_matches(p, command),
{
    assert((seq!['!'] + p).drop_first() =~= p);
}

/// A rule that decides about a call is one about its tool or about all tools; one about all
/// tools decides only where no rule about the tool as a whole does, and a rule that names a
/// command or a directory only about those.
pub proof fn law_rules_speak_of_their_own_calls(rules: Seq<RuleModel>, call: CallFacts)
    ensures
        deciding_rule(rules, call) matches Some(r) ==> r.tool == call.tool || r.tool == "*"@,
        deciding_rule(rules, call) matches Some(r) ==> (r.tool != call.tool ==> r.command_pattern
            is None && r.path_scope is None && forall|i: int|
            0 <= i < rules.len() && (#[trigger] rules[i]).tool == call.tool
                ==> rules[i].command_pattern is Some || rules[i].path_scope is Some),
        deciding_rule(rules, call) matches Some(r) ==> (r.path_scope is None ==> (
        r.command_pattern matches Some(p) ==> command_matches(p, call.command))),
        deciding_rule(rules, call) matches Some(r) ==> (r.command_pattern is None ==> (
        r.path_scope matches Some(s) ==> call.path.len() > 0 && in_scope(
            call.path,
            s,
            call.home,
        ))),
{
    lemma_first_applies(rules, RuleLevel::Command, call);
    lemma_first_applies(rules, RuleLevel::Path, call);
    lemma_first_applies(rules, RuleLevel::Tool, call);
    lemma_first_applies(rules, RuleLevel::Wildcard, call);
    lemma_none_applies(rules, RuleLevel::Tool, call);
    if let Some(r) = deciding_rule(rules, call) {
        if r.tool != call.tool {
            assert(first_applying(rules, RuleLevel::Tool, call) is None);
            assert forall|i: int| 0 <= i < rules.len() && (#[trigger] rules[i]).tool == call.tool
                implies rules[i].command_pattern is Some || rules[i].path_scope is Some by {
                assert(!applies(rules[i], RuleLevel::Tool, call));
            }
        }
    }
}

/// A scope is all of its directories: a path lies in it where it lies in one of them.
pub proof fn law_a_scope_is_all_of_its_directories(
    path: Seq<char>,
    scope: Seq<Seq<char>>,
    more: Seq<Seq<char>>,
    home: Seq<char>,
)
    ensures
        in_scope(path, scope + more, home) <==> in_scope(path, scope, home) || in_scope(
            path,
            more,
            home,
        ),
        !in_scope(path, Seq::empty(), home),
{
    let all = scope + more;
    let p = with_slashes(path);
    if in_scope(path, all, home) {
        let i = choose|i: int|
            0 <= i < all.len() && lies_within(p, with_slashes(scope_dir(#[trigger] all[i], home)));
        if i < scope.len() {
            assert(scope[i] == all[i]);
        } else {
            assert(more[i - scope.len()] == all[i]);
        }
    }
    if in_scope(path, scope, home) {
        let i = choose|i: int|
            0 <= i < scope.len() && lies_within(
                p,
                with_slashes(scope_dir(#[trigger] scope[i], home)),
            );
        assert(all[i] == scope[i]);
    }
    if in_scope(path, more, home) {
        let i = choose|i: int|
            0 <= i < more.len() && lies_within(
                p,
                with_slashes(scope_dir(#[trigger] more[i], home)),
            );
        assert(all[scope.len() + i] == more[i]);
    }
}

} // verus!
