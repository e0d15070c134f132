use voxclaw::agent::error::AgentError;
use voxclaw::agent::message::ToolCall;
use voxclaw::agent::tool::builtin::app::{
    ComposeEmailTool, OpenBrowserTool, OpenCalculatorTool, OpenExplorerTool, ScreenshotTool,
};
use voxclaw::agent::tool::builtin::bash::BashTool;
use voxclaw::agent::tool::builtin::clipboard::{ClipboardTool, PasteStep};
use voxclaw::agent::tool::builtin::create_all_tools;
use voxclaw::agent::tool::builtin::file_edit::FileEditTool;
use voxclaw::agent::tool::builtin::file_read::{FileReadTool, READ_LIMIT};
use voxclaw::agent::tool::builtin::file_write::FileWriteTool;
use voxclaw::agent::tool::builtin::glob::{FoundFile, GlobTool};
use voxclaw::agent::tool::builtin::grep::{GrepTool, LinePattern};
use voxclaw::agent::tool::builtin::open_url::OpenUrlTool;
use voxclaw::agent::tool::hooks::{
    build_summary, confirmation_decision, evaluate_safety_rules, respond_confirmation,
    Confirmation, LoggingHook, SafetyHook, SafetyVerdict, ValidationHook,
};
use voxclaw::agent::tool::{
    hooks_answered, run_before_hooks, tool_answered, CallStep, HookDecision, HookResult,
    ToolExecutor, ToolOutput,
};
use voxclaw::json::{parse, text_value, Json};
use voxclaw::agent::request::LlmTool;
use voxclaw::storage::SafetyRule;

fn value(source: &str) -> Json {
    match parse(source) {
        Ok(v) => v,
        Err(e) => panic!("{}", e),
    }
}

fn text(output: &ToolOutput) -> &str {
    match output {
        ToolOutput::Text(t) => t,
        ToolOutput::Error(t) => panic!("error: {}", t),
    }
}

fn ok_text(output: Result<ToolOutput, AgentError>) -> String {
    match output {
        Ok(ToolOutput::Text(t)) => t,
        Ok(ToolOutput::Error(t)) => panic!("error: {}", t),
        Err(e) => panic!("{}", e.message()),
    }
}

fn call(name: &str, arguments: &str) -> ToolCall {
    ToolCall { id: "call_1".into(), name: name.into(), arguments: arguments.into() }
}

// ---------------------------------------------------------------------------
// Safety rules
// ---------------------------------------------------------------------------

fn make_rule(
    tool: &str,
    action: &str,
    pattern: Option<&str>,
    paths: Option<Vec<&str>>,
) -> SafetyRule {
    SafetyRule {
        tool: tool.to_string(),
        action: action.to_string(),
        command_pattern: pattern.map(|s| s.to_string()),
        path_scope: paths.map(|v| v.into_iter().map(String::from).collect()),
    }
}

fn match_call(
    rules: &Vec<SafetyRule>,
    tool_name: &str,
    command: &str,
    path: &str,
) -> Option<HookDecision> {
    evaluate_safety_rules(rules, tool_name, command, path, "C:\\Users\\me")
}

#[test]
fn wildcard_deny_blocks_everything() {
    let rules = vec![make_rule("*", "deny", None, None)];
    let result = match_call(&rules, "bash", "echo hi", "");
    assert!(matches!(result, Some(HookDecision::Block { .. })));
}

#[test]
fn specific_allow_overrides_wildcard() {
    let rules = vec![
        make_rule("*", "deny", None, None),
        make_rule("bash", "allow", None, None),
    ];
    let result = match_call(&rules, "bash", "echo hi", "");
    assert!(matches!(result, Some(HookDecision::Allow)));
}

#[test]
fn command_pattern_allow() {
    let rules = vec![
        make_rule("bash", "allow", Some("echo *"), None),
        make_rule("bash", "deny", None, None),
    ];
    assert!(matches!(match_call(&rules, "bash", "echo hello", ""), Some(HookDecision::Allow)));
    assert!(matches!(
        match_call(&rules, "bash", "del file.txt", ""),
        Some(HookDecision::Block { .. })
    ));
}

#[test]
fn command_pattern_deny_with_bang() {
    let rules = vec![
        make_rule("bash", "deny", Some("!del *"), None),
        make_rule("bash", "allow", None, None),
    ];
    assert!(matches!(
        match_call(&rules, "bash", "del /s file", ""),
        Some(HookDecision::Block { .. })
    ));
    assert!(matches!(match_call(&rules, "bash", "echo hi", ""), Some(HookDecision::Allow)));
}

#[test]
fn path_scope_deny_outside_scope() {
    let rules = vec![
        make_rule("file_write", "allow", None, Some(vec!["~/Desktop", "~/Downloads"])),
        make_rule("file_write", "deny", None, None),
    ];
    // Path that doesn't match scope should fall through to the deny rule
    let result = match_call(&rules, "file_write", "", "C:\\Unknown\\Path\\test.md");
    assert!(matches!(result, Some(HookDecision::Block { .. })));
}

#[test]
fn path_scope_allows_inside_scope() {
    let rules = vec![
        make_rule("file_write", "allow", None, Some(vec!["~/Desktop", "D:\\shared"])),
        make_rule("file_write", "deny", None, None),
    ];
    let inside = match_call(&rules, "file_write", "", "C:\\Users\\me\\Desktop\\a.txt");
    assert!(matches!(inside, Some(HookDecision::Allow)));
    let shared = match_call(&rules, "file_write", "", "D:/shared/b.txt");
    assert!(matches!(shared, Some(HookDecision::Allow)));
}

#[test]
fn no_matching_rules_returns_none() {
    let rules: Vec<SafetyRule> = vec![];
    let result = match_call(&rules, "bash", "echo hi", "");
    assert!(result.is_none());
}

#[test]
fn the_default_policy_decides_without_a_rule() {
    let bash = call("bash", r#"{"command":"dir"}"#);
    let judge = |policy: &str| SafetyHook::new(vec![], policy.to_string()).before_call(&bash, "");
    assert!(matches!(judge("allow"), SafetyVerdict::Decided(HookDecision::Allow)));
    assert!(matches!(
        judge("deny"),
        SafetyVerdict::Decided(HookDecision::Block { reason })
            if reason == "Blocked by default safety policy (deny)"
    ));
    assert!(matches!(judge("confirm"), SafetyVerdict::Confirm { summary } if summary == "bash: dir"));

    let mut hook = SafetyHook::new(vec![], "allow".to_string());
    hook.add_rule(make_rule("bash", "deny", None, None));
    assert!(matches!(
        hook.before_call(&bash, ""),
        SafetyVerdict::Decided(HookDecision::Block { reason })
            if reason == "Blocked by safety rule (deny)"
    ));
}

#[test]
fn summaries_name_what_is_at_stake() {
    let none = value("{}");
    assert_eq!(build_summary("bash", &none, "{}"), "bash: (unknown)");
    let path = value(r#"{"path":"a.txt"}"#);
    assert_eq!(build_summary("file_write", &path, ""), "file_write: a.txt");
    assert_eq!(build_summary("file_edit", &path, ""), "file_edit: a.txt");
    assert_eq!(build_summary("glob", &none, "{\"a\":1}"), "glob: {\"a\":1}");
    let hook = SafetyHook::new(vec![], "confirm".to_string());
    let other = call("glob", "{ \"pattern\" : \"*.rs\" }");
    assert!(matches!(
        hook.before_call(&other, ""),
        SafetyVerdict::Confirm { summary } if summary == r#"glob: {"pattern":"*.rs"}"#
    ));
}

#[test]
fn confirmations_become_decisions() {
    assert!(matches!(
        confirmation_decision(Confirmation::Answered(HookDecision::Allow)),
        HookDecision::Allow
    ));
    assert!(matches!(
        confirmation_decision(Confirmation::Closed),
        HookDecision::Block { reason } if reason == "Confirmation channel closed unexpectedly"
    ));
    assert!(matches!(
        confirmation_decision(Confirmation::TimedOut),
        HookDecision::Block { reason }
            if reason == "操作已被拒绝：用户未在 30 秒内确认，该操作被自动取消。请尝试其他方案。"
    ));
    assert!(matches!(
        confirmation_decision(Confirmation::Unavailable),
        HookDecision::Block { reason }
            if reason == "Safety hook internal error (pending lock poisoned)"
    ));
    assert!(respond_confirmation("no such answer").is_err());
}

#[test]
fn arguments_must_be_an_object() {
    assert!(matches!(LoggingHook.before_call(&call("a", "nonsense")), HookDecision::Allow));
    assert!(matches!(ValidationHook.before_call(&call("a", "{}")), HookDecision::Allow));
    assert!(matches!(
        ValidationHook.before_call(&call("a", "[1]")),
        HookDecision::Block { reason } if reason == "Invalid JSON arguments"
    ));
    assert!(matches!(
        ValidationHook.before_call(&call("a", "{")),
        HookDecision::Block { .. }
    ));
}

// ---------------------------------------------------------------------------
// Executing calls
// ---------------------------------------------------------------------------

fn echo_tool() -> LlmTool {
    LlmTool::new(
        "echo",
        "Echo input",
        value(r#"{"type":"object","properties":{"text":{"type":"string"}},"required":["text"]}"#),
    )
}

#[test]
fn executor_runs_single_tool() {
    let mut executor = ToolExecutor::new();
    executor.register(echo_tool());
    let c = call("echo", r#"{"text":"hi"}"#);
    assert!(matches!(executor.begin_call(&c), CallStep::AskHooks));
    let args = match hooks_answered(&c, vec![]) {
        CallStep::Run { args } => args,
        _ => panic!("no hook stands in the way"),
    };
    let result = tool_answered(&c, Ok(ToolOutput::Text(args.get_text("text"))));
    assert_eq!(result.content, "hi");
    assert!(!result.is_error);
    assert_eq!(result.call_id, "call_1");
}

#[test]
fn executor_returns_error_for_unknown_tool() {
    let executor = ToolExecutor::new();
    match executor.begin_call(&call("nonexistent", "{}")) {
        CallStep::Done { result } => {
            assert!(result.is_error);
            assert_eq!(result.content, "Unknown tool: nonexistent");
        }
        _ => panic!("there is no such tool"),
    }
}

#[test]
fn registering_again_replaces_a_tool() {
    let mut executor = ToolExecutor::new();
    executor.register(echo_tool());
    executor.register(LlmTool::new("echo", "Another", value("{}")));
    assert!(executor.knows("echo"));
    assert!(!executor.knows("bash"));
    let specs = executor.tool_specs();
    assert_eq!(specs.len(), 1);
    assert_eq!(specs[0].function.description, "Another");
}

#[test]
fn the_first_hook_that_objects_decides() {
    let block = || HookDecision::Block { reason: "no".to_string() };
    let modify = || HookDecision::ModifyArgs { args: text_value("new") };
    assert!(matches!(
        run_before_hooks(vec![HookDecision::Allow, block(), modify()]),
        HookResult::Blocked { reason } if reason == "no"
    ));
    assert!(matches!(
        run_before_hooks(vec![modify(), block()]),
        HookResult::Allowed { modified_args: Some(_) }
    ));
    assert!(matches!(
        run_before_hooks(vec![HookDecision::Allow]),
        HookResult::Allowed { modified_args: None }
    ));
    let c = call("echo", "{}");
    match hooks_answered(&c, vec![block()]) {
        CallStep::Done { result } => assert!(result.is_error && result.content == "no"),
        _ => panic!("the call is blocked"),
    }
    match hooks_answered(&c, vec![modify()]) {
        CallStep::Run { args } => assert_eq!(args.as_str(), Some("new")),
        _ => panic!("the call goes on"),
    }
    match hooks_answered(&call("echo", "not json"), vec![]) {
        CallStep::Run { args } => assert!(args.is_object() && args.get("text").is_none()),
        _ => panic!("the call goes on"),
    }
    assert!(tool_answered(&c, Ok(ToolOutput::Error("bad".into()))).is_error);
    let failed = tool_answered(&c, Err(AgentError::Tool("bad".into())));
    assert!(failed.is_error);
    assert_eq!(failed.content, "Tool error: bad");
}

// ---------------------------------------------------------------------------
// The tools
// ---------------------------------------------------------------------------

#[test]
fn every_tool_has_a_name_of_its_own() {
    let tools = create_all_tools();
    let mut names: Vec<&str> = tools.iter().map(|t| t.function.name.as_str()).collect();
    let count = names.len();
    assert_eq!(count, 14);
    names.sort();
    names.dedup();
    assert_eq!(names.len(), count);
    assert!(tools.iter().all(|t| t.spec_type == "function"));
    assert!(tools.iter().all(|t| t.function.parameters.get_text("type") == "object"));
}

#[test]
fn bash_reads_its_arguments() {
    let c = BashTool.command(&value(r#"{"command":"dir"}"#));
    assert_eq!(c.command, "dir");
    assert_eq!(c.timeout_ms, 30_000);
    assert!(c.cwd.is_none());
    let c = BashTool.command(&value(r#"{"command":"dir","timeout_ms":5,"cwd":"C:"}"#));
    assert_eq!(c.timeout_ms, 5);
    assert_eq!(c.cwd.as_deref(), Some("C:"));
    assert_eq!(
        BashTool.timed_out(5).message(),
        "Tool error: Command timed out after 5ms"
    );
    assert_eq!(
        BashTool.not_executed("gone").message(),
        "Tool error: Failed to execute command: gone"
    );
}

#[test]
fn bash_shows_both_streams_and_the_exit_code() {
    assert_eq!(text(&BashTool.output("out", "", Some(0), true)), "out\n[exit code: 0]");
    match BashTool.output("out", "err", Some(-3), false) {
        ToolOutput::Error(t) => assert_eq!(t, "out\n[stderr] err\n[exit code: -3]"),
        ToolOutput::Text(_) => panic!("the command failed"),
    }
    match BashTool.output("", "", None, false) {
        ToolOutput::Error(t) => assert_eq!(t, "[exit code: -1]"),
        ToolOutput::Text(_) => panic!("the command failed"),
    }
}

#[test]
fn long_files_are_cut_off() {
    let short = "好".repeat(READ_LIMIT);
    assert_eq!(text(&FileReadTool.output(short.clone())), short);
    let long = "好".repeat(READ_LIMIT + 1);
    assert_eq!(
        text(&FileReadTool.output(long)),
        format!("{}... [truncated at 10000 chars]", short)
    );
    assert_eq!(FileReadTool.path(&value(r#"{"path":"a"}"#)), "a");
    assert_eq!(
        FileReadTool.not_read("a", "gone").message(),
        "Tool error: Failed to read file 'a': gone"
    );
}

#[test]
fn writing_reports_bytes() {
    let (path, content) = FileWriteTool.request(&value(r#"{"path":"a","content":"你好"}"#));
    assert_eq!((path.as_str(), content.as_str()), ("a", "你好"));
    assert_eq!(text(&FileWriteTool.output(&path, &content)), "Wrote 6 bytes to a");
    assert_eq!(
        FileWriteTool.not_written("a", "full").message(),
        "Tool error: Failed to write file 'a': full"
    );
}

fn edit(all: bool, content: &str) -> Result<(String, String), String> {
    let args = value(&format!(
        r#"{{"file_path":"f","old_string":"ab","new_string":"x","replace_all":{}}}"#,
        all
    ));
    let request = match FileEditTool.request(&args) {
        Ok(r) => r,
        Err(e) => panic!("{}", e.message()),
    };
    match FileEditTool.edit(&request, content) {
        Ok((new, output)) => Ok((new, text(&output).to_string())),
        Err(e) => Err(e.message()),
    }
}

#[test]
fn edits_replace_one_or_all() {
    assert_eq!(
        edit(false, "ab-ab-ab"),
        Ok(("x-ab-ab".to_string(), "Replaced 1 occurrence(s) in f".to_string()))
    );
    assert_eq!(
        edit(true, "ab-ab-ab"),
        Ok(("x-x-x".to_string(), "Replaced 3 occurrence(s) in f".to_string()))
    );
    assert_eq!(edit(true, "none"), Err("Tool error: old_string not found in file".to_string()));
    for (args, missing) in [
        (r#"{}"#, "file_path required"),
        (r#"{"file_path":"f"}"#, "old_string required"),
        (r#"{"file_path":"f","old_string":"a"}"#, "new_string required"),
    ] {
        match FileEditTool.request(&value(args)) {
            Ok(_) => panic!("an argument is missing"),
            Err(e) => assert!(e.message().ends_with(missing)),
        }
    }
}

#[test]
fn replacing_a_text_by_itself_changes_nothing() {
    let args = value(
        r#"{"file_path":"f","old_string":"a","new_string":"a","replace_all":true}"#,
    );
    let request = match FileEditTool.request(&args) {
        Ok(r) => r,
        Err(e) => panic!("{}", e.message()),
    };
    match FileEditTool.edit(&request, "banana") {
        Ok((new, output)) => {
            assert_eq!(new, "banana");
            assert_eq!(text(&output), "Replaced 3 occurrence(s) in f");
        }
        Err(e) => panic!("{}", e.message()),
    }
}

#[test]
fn globs_look_at_names_and_paths() {
    let files: Vec<FoundFile> = [("a.rs", "src/a.rs"), ("b.txt", "src/b.txt"), ("c.rs", "c.rs")]
        .iter()
        .map(|(n, p)| FoundFile { name: n.to_string(), path: p.to_string() })
        .collect();
    let hits = GlobTool.hits("*.rs", &files);
    assert_eq!(hits, vec![true, false, true]);
    assert_eq!(text(&GlobTool.output(&files, &hits)), "src/a.rs\nc.rs");
    assert_eq!(GlobTool.hits("src/*", &files), vec![true, true, false]);
    let odd = vec![FoundFile { name: "a.rs".to_string(), path: "src\\a.rs".to_string() }];
    assert_eq!(GlobTool.hits("*.rs", &odd), vec![true]);
    assert_eq!(GlobTool.hits("*.md", &odd), vec![false]);
    let none = GlobTool.hits("*.md", &files);
    assert_eq!(text(&GlobTool.output(&files, &none)), "No files matched.");
    match GlobTool.request(&value(r#"{"pattern":"*"}"#)) {
        Ok((pattern, dir)) => assert_eq!((pattern.as_str(), dir.as_str()), ("*", ".")),
        Err(e) => panic!("{}", e.message()),
    }
    assert!(GlobTool.request(&value("{}")).is_err());
}

#[test]
fn grep_numbers_the_lines_it_finds() {
    let pattern = match LinePattern::new("^b+$") {
        Ok(p) => p,
        Err(e) => panic!("{}", e.message()),
    };
    let mut results: Vec<String> = vec![];
    GrepTool.search_file("f", "a\nbb\r\nabb\nb", &pattern, &mut results);
    assert_eq!(results, vec!["f:2: bb".to_string(), "f:4: b".to_string()]);
    assert_eq!(text(&GrepTool.output(&results)), "f:2: bb\nf:4: b");
    assert_eq!(text(&GrepTool.output(&vec![])), "No matches found.");
    let many: Vec<String> = (0..101).map(|i| format!("m{}", i)).collect();
    let shown = GrepTool.output(&many);
    assert!(text(&shown).starts_with("101 matches (showing first 100):\nm0\n"));
    assert!(text(&shown).ends_with("\nm99"));
}

#[test]
fn grep_refuses_a_pattern_that_is_none() {
    match LinePattern::new("(") {
        Ok(_) => panic!("the pattern is not closed"),
        Err(e) => assert!(e.message().contains("Invalid regex: ")),
    }
    assert!(GrepTool.takes(&None, "a.txt"));
    assert!(GrepTool.takes(&Some("*.rs".to_string()), "a.rs"));
    assert!(!GrepTool.takes(&Some("*.rs".to_string()), "a.txt"));
    match GrepTool.request(&value(r#"{"pattern":"p","path":"d","include":"*.rs"}"#)) {
        Ok(r) => assert_eq!(r.filter.as_deref(), Some("*.rs")),
        Err(e) => panic!("{}", e.message()),
    }
    assert!(GrepTool.request(&value(r#"{"pattern":"p"}"#)).is_err());
    assert_eq!(
        GrepTool.not_accessible("d", "gone").message(),
        "Tool error: Cannot access 'd': gone"
    );
}

#[test]
fn pasting_presses_control_v() {
    assert_eq!(ClipboardTool.text(&value(r#"{"text":"hi"}"#)), "hi");
    let steps = ClipboardTool.steps();
    assert!(matches!(steps[0], PasteStep::SetText));
    assert!(matches!(steps[steps.len() - 1], PasteStep::Restore));
    assert_eq!(text(&ClipboardTool.output("你", Ok(()))), "Pasted 3 characters");
    match ClipboardTool.output("x", Err(AgentError::Tool("locked".into()))) {
        ToolOutput::Error(t) => assert_eq!(t, "Tool error: locked"),
        ToolOutput::Text(_) => panic!("pasting failed"),
    }
}

#[test]
fn programs_are_started() {
    assert_eq!(OpenCalculatorTool.launch().program, "calc.exe");
    assert_eq!(ok_text(OpenCalculatorTool.output(Ok(true))), "Calculator opened");
    assert!(matches!(
        ScreenshotTool.output(Ok(false)),
        Ok(ToolOutput::Error(t)) if t == "Failed to open Snipping Tool"
    ));
    match OpenCalculatorTool.output(Err("gone".to_string())) {
        Ok(_) => panic!("nothing was started"),
        Err(e) => assert_eq!(e.message(), "Tool error: Failed to open calculator: gone"),
    }
    let url = value(r#"{"url":"https://a"}"#);
    let launch = OpenBrowserTool.launch(&url);
    assert_eq!(launch.program, "cmd");
    assert_eq!(launch.args, vec!["/C", "start", "", "https://a"]);
    assert_eq!(OpenBrowserTool.launch(&value("{}")).args, vec!["/C", "start", ""]);
    assert_eq!(ok_text(OpenBrowserTool.output(&url, Ok(true))), "Opened browser at https://a");
    assert_eq!(ok_text(OpenUrlTool.output(&url, Ok(true))), "Opened https://a");
    assert_eq!(OpenUrlTool.launch(&url).args, vec!["/C", "start", "", "https://a"]);
    let path = value(r#"{"path":"C:"}"#);
    assert_eq!(OpenExplorerTool.launch(&path).args, vec!["C:"]);
    assert_eq!(ok_text(OpenExplorerTool.output(&path, Ok(true))), "Opened explorer at C:");
    assert_eq!(ok_text(OpenExplorerTool.output(&value("{}"), Ok(true))), "Explorer opened");
}

#[test]
fn mail_addresses_are_encoded() {
    let args = value(r#"{"to":"a@b.c","subject":"hi you","body":"1&2 你"}"#);
    assert_eq!(
        ComposeEmailTool.address(&args),
        "mailto:a@b.c?subject=hi%20you&body=1%262%20%E4%BD%A0"
    );
    assert_eq!(ComposeEmailTool.address(&value("{}")), "mailto:");
    assert_eq!(ComposeEmailTool.address(&value(r#"{"body":"~x_-."}"#)), "mailto:?body=~x_-.");
    assert_eq!(ok_text(ComposeEmailTool.output(&args, Ok(true))), "Opened email client to a@b.c");
}
