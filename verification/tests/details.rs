use voxclaw::agent::request::{ThinkingConfig, ThinkingLevel};
use voxclaw::agent::run::AgentBuilder;
use voxclaw::agent::session::{SessionEntry, SessionEntryKind, SessionStore};
use voxclaw::agent::tool::builtin::create_all_tools;
use voxclaw::agent::tool::{ExecutionMode, ToolExecutor};
use voxclaw::asr::sensevoice::download::{DownloadEvent, DownloadStep, ModelDownload};
use voxclaw::asr::sensevoice::model::{is_present, required_size, REQUIRED_COUNT};
use voxclaw::asr::sensevoice::provider::{
    beside_executable, choose_library, in_python, inference_threads, output_shape,
};
use voxclaw::asr::zipformer::download::{archive_path, progress_event, Progress};
use voxclaw::commands::audio::sensevoice_default_dir;
use voxclaw::dictation::{
    maybe_finalize_pending_dictation, Dictation, DictationAction, Finalize, Moment,
};
use voxclaw::keyboard::Key;
use voxclaw::lists::descending_order;
use voxclaw::meeting::session::{meeting_id_at, next_meeting_id};
use voxclaw::paths::{join, precedes};
use voxclaw::recording::{
    failed_transcript_reports, not_recognised_reports, selection_cleanup, selection_steps,
    ClipboardStep, Report,
};
use voxclaw::skill_engine::{
    begin_windows_target, browser_action_key, finish_windows_target, is_browser_open_query_ready,
    is_windows_open_query_ready, plan_browser_command, plan_direct_windows_target,
    plan_done_feedback, plan_windows_command, resolve_windows_target_candidate,
    windows_action_key, TargetAnswer, TargetStart,
};
use voxclaw::skills::{
    extract_scene_query, BrowserAction, BrowserActionPlan, BrowserPlanResult, SkillMatch,
    WindowsAction, WindowsActionPlan, WindowsOptions, WindowsPlanResult,
};
use voxclaw::state::{preview_text, DictationIntent, PendingFinalizeState};
use voxclaw::storage::{
    apply_to_history, blank_scene_template, default_scene_template, HistoryItem, StorageOp,
};
use voxclaw::transcription::{
    finish_polish, plan_transcription, PolishOutcome, TranscriptionPlan,
};

fn text(s: &str) -> String {
    s.to_string()
}

// Plans

#[test]
fn plans_are_handed_on() {
    let plan = WindowsActionPlan {
        action: WindowsAction::LockScreen,
        action_name: text("Lock"),
        note: None,
        consumed_end: 4,
    };
    let done = plan_windows_command(WindowsPlanResult::Action(plan));
    assert!(matches!(done, Ok(Some(p)) if p.consumed_end == 4));
    assert!(matches!(plan_windows_command(WindowsPlanResult::Unmatched), Ok(None)));
    let told = plan_windows_command(WindowsPlanResult::Feedback(text("say more")));
    assert!(matches!(told, Err(m) if m == "say more"));

    let plan = BrowserActionPlan {
        action: BrowserAction::NewTab,
        action_name: text("New tab"),
        note: None,
        consumed_end: 7,
    };
    let done = plan_browser_command(BrowserPlanResult::Action(plan));
    assert!(matches!(done, Ok(Some(p)) if p.consumed_end == 7));
    assert!(matches!(plan_browser_command(BrowserPlanResult::Unmatched), Ok(None)));
    let told = plan_browser_command(BrowserPlanResult::Feedback(text("which one")));
    assert!(matches!(told, Err(m) if m == "which one"));
}

#[test]
fn action_keys_go_by_what_is_asked() {
    let open = BrowserAction::OpenTarget { query: text("  GitHub ") };
    assert_eq!(browser_action_key(&open), "browser:open_target:github");
    let tab = BrowserAction::SwitchTabIndex { index: 3 };
    assert_eq!(browser_action_key(&tab), "browser:switch_tab:3");
    assert_eq!(browser_action_key(&BrowserAction::Find { query: None }), "browser:find:");
    assert_eq!(browser_action_key(&BrowserAction::GoBack), "browser:GoBack");
    let open = WindowsAction::OpenTarget { query: text("Settings") };
    assert_eq!(windows_action_key(&open), "windows:open_target:settings");
    assert_eq!(windows_action_key(&WindowsAction::LockScreen), "windows:LockScreen");
}

#[test]
fn actions_report_what_they_did() {
    assert_eq!(BrowserAction::Find { query: Some(text("abc")) }.done_message(), "已打开查找并输入：abc");
    assert_eq!(BrowserAction::Find { query: Some(text("")) }.done_message(), "已打开页面查找");
    assert_eq!(BrowserAction::SwitchTabIndex { index: 2 }.done_message(), "已切换到第 2 个页面");
    assert_eq!(BrowserAction::CloseTabsToRight.done_message(), "已执行关闭右侧页面");
    assert_eq!(WindowsAction::OpenRunDialog.done_message(), "Opened the Run dialog");
    let told = plan_done_feedback(text("done"), Some(text("note")));
    assert_eq!(told.len(), 2);
    assert_eq!(told[0].level, "success");
    assert_eq!(told[1].level, "info");
    assert_eq!(told[1].message, "note");
    assert_eq!(plan_done_feedback(text("done"), None).len(), 1);
}

#[test]
fn a_second_lookup_needs_a_new_name() {
    assert_eq!(resolve_windows_target_candidate("打开设置", Some(1), Some(2)), Some(1));
    assert_eq!(resolve_windows_target_candidate("打开设置", None, Some(2)), Some(2));
    assert_eq!(resolve_windows_target_candidate("设置", None, Some(2)), None);
    assert_eq!(resolve_windows_target_candidate("打开", None, Some(2)), None);
}

#[test]
fn a_whole_transcript_can_name_a_target() {
    let plan = plan_direct_windows_target("打开设置页面", true);
    assert!(matches!(&plan, Some(WindowsActionPlan {
        action: WindowsAction::OpenTarget { query },
        consumed_end: 18,
        ..
    }) if query == "设置"));
    assert!(plan_direct_windows_target("打开设置页面", false).is_none());
    assert!(plan_direct_windows_target("打开", true).is_none());
}

#[test]
fn names_are_long_enough_to_act_upon() {
    assert!(!is_browser_open_query_ready("  ", true, true));
    assert!(is_browser_open_query_ready("a.b", true, false));
    assert!(!is_browser_open_query_ready("abc", false, false));
    assert!(is_browser_open_query_ready("abcd", false, false));
    assert!(!is_browser_open_query_ready("新", false, false));
    assert!(is_browser_open_query_ready("新浪", false, false));
    assert!(!is_windows_open_query_ready("cm", false));
    assert!(is_windows_open_query_ready("cmd", false));
    assert!(is_windows_open_query_ready("c", true));
}

#[test]
fn unknown_targets_are_asked_for() {
    let on = WindowsOptions { llm_target_resolution_enabled: true };
    let off = WindowsOptions { llm_target_resolution_enabled: false };
    assert!(matches!(begin_windows_target(" a ", Some(5), None),
        TargetStart::Open { target: 5, message } if message == "Opened Windows target: a"));
    assert!(matches!(begin_windows_target::<u8>("a", None, Some(&on)), TargetStart::AskModel));
    assert!(matches!(begin_windows_target::<u8>("a", None, Some(&off)),
        TargetStart::Fail(m) if m == "No Windows target matched: a"));
    assert!(matches!(begin_windows_target::<u8>("a", None, None),
        TargetStart::Fail(m) if m == "Windows skill configuration is missing"));

    let answered = TargetAnswer::Answered { target: Some(5), fallback_reason: None };
    assert!(matches!(finish_windows_target("a", answered),
        Ok((5, m)) if m == "Resolved and opened Windows target: a"));
    let refused: TargetAnswer<u8> =
        TargetAnswer::Answered { target: None, fallback_reason: Some(text("why")) };
    assert!(matches!(finish_windows_target("a", refused), Err(m) if m == "why"));
    assert!(matches!(finish_windows_target::<u8>("a", TargetAnswer::Cancelled),
        Err(m) if m == "Windows target resolution was cancelled"));
    assert!(matches!(finish_windows_target::<u8>("a", TargetAnswer::Failed(text("net"))),
        Err(m) if m == "net"));
}

#[test]
fn scene_names_stop_at_the_next_match() {
    let first = SkillMatch { skill_id: text("s"), keyword: text("切换到"), start: 0, end: 9 };
    let next = SkillMatch { skill_id: text("t"), keyword: text("打开"), start: 18, end: 24 };
    let transcript = "切换到，邮件打开浏览器";
    assert_eq!(extract_scene_query(transcript, &first, Some(&next)), "邮件");
    assert_eq!(extract_scene_query("切换到邮件模式", &first, None), "邮件");
    assert_eq!(extract_scene_query("切换到邮件场景。", &first, None), "邮件");
    let beyond = SkillMatch { skill_id: text("s"), keyword: text("x"), start: 0, end: 100 };
    assert_eq!(extract_scene_query("短", &beyond, None), "");
}

// Recordings and dictation

#[test]
fn failures_are_reported() {
    let begun = not_recognised_reports();
    assert_eq!(begun[0], Report::RecordingStatus(false));
    assert_eq!(begun[2], Report::SessionComplete);
    assert_eq!(failed_transcript_reports()[0], Report::RecognitionProcessing(false));
}

#[test]
fn the_selection_is_copied_and_the_clipboard_restored() {
    let steps = selection_steps();
    assert_eq!(steps[0], ClipboardStep::Remember);
    assert_eq!(steps[5], ClipboardStep::Click(Key::Unicode('c')));
    assert_eq!(steps[9], ClipboardStep::Take);
    assert_eq!(selection_cleanup("was"), vec![ClipboardStep::SleepMs(10), ClipboardStep::Restore]);
    assert_eq!(selection_cleanup(""), vec![ClipboardStep::Clear]);
}

#[test]
fn a_dictation_waits_for_both_the_window_and_the_transcript() {
    let mut pending = PendingFinalizeState {
        session_id: 1,
        intent: DictationIntent::Polish,
        window_elapsed: false,
        asr_result: Some(Ok(text("said"))),
    };
    assert!(maybe_finalize_pending_dictation(&mut pending).is_none());
    assert!(pending.asr_result.is_some());
    pending.window_elapsed = true;
    assert!(matches!(maybe_finalize_pending_dictation(&mut pending),
        Some(Finalize::Dispatch { text, polish: true }) if text == "said"));
    assert!(maybe_finalize_pending_dictation(&mut pending).is_none());
    pending.asr_result = Some(Err(text("lost")));
    assert!(matches!(maybe_finalize_pending_dictation(&mut pending),
        Some(Finalize::Fail { error }) if error == "lost"));
}

#[test]
fn intents_have_names() {
    assert_eq!(DictationIntent::Raw.as_event(), "raw");
    assert_eq!(DictationIntent::Polish.as_event(), "polish");
    assert_eq!(DictationIntent::Skill.as_event(), "skill");
    assert_eq!(DictationIntent::Agent.as_event(), "agent");
    assert_eq!(DictationIntent::Unset.as_event(), "none");
}

#[test]
fn previews_are_capped_and_on_one_line() {
    assert_eq!(preview_text("a\nb\tc\rd", 80), "a b c d");
    assert_eq!(preview_text("控制面板", 2), "控制");
    assert_eq!(preview_text("abc", 0), "");
}

// The agent

#[test]
fn budgets_go_by_the_level() {
    let explicit = ThinkingConfig { level: ThinkingLevel::Low, budget_tokens: Some(7) };
    assert_eq!(explicit.effective_budget(), Some(7));
    let off = ThinkingConfig { level: ThinkingLevel::Off, budget_tokens: None };
    assert_eq!(off.effective_budget(), None);
    let level = ThinkingConfig { level: ThinkingLevel::Low, budget_tokens: None };
    assert!(level.effective_budget().is_some());
    assert!(matches!(ThinkingLevel::from_lowercase("x-high"), ThinkingLevel::XHigh));
    assert!(matches!(ThinkingLevel::from_lowercase("HIGH"), ThinkingLevel::Off));
    assert!(matches!(ThinkingLevel::from_str_lossy("HIGH"), ThinkingLevel::High));
}

#[test]
fn an_agent_can_be_set_up_and_reset() {
    let built = AgentBuilder::default()
        .provider("mock")
        .execution_mode(ExecutionMode::Parallel)
        .build();
    let mut agent = match built {
        Ok(agent) => agent,
        Err(e) => panic!("{}", e.message()),
    };
    assert!(matches!(agent.execution_mode, ExecutionMode::Parallel));
    agent.process("hello");
    agent.begin_turn(false);
    agent.reset();
    assert!(agent.messages.is_empty());
    assert!(agent.steering_queue.is_empty());
    let mut executor = ToolExecutor::new();
    executor.set_mode(ExecutionMode::Parallel);
    assert!(matches!(executor.mode, ExecutionMode::Parallel));
}

#[test]
fn tools_are_described_under_their_names() {
    let names: Vec<String> = create_all_tools().into_iter().map(|t| t.function.name).collect();
    for name in ["bash", "file_read", "file_write", "file_edit", "glob", "grep"] {
        assert!(names.iter().any(|n| n == name));
    }
}

// Ids, times and places

fn is_random_id(id: &str) -> bool {
    let chars: Vec<char> = id.chars().collect();
    chars.len() == 36
        && [8, 13, 18, 23].iter().all(|i| chars[*i] == '-')
        && chars[14] == '4'
        && ['8', '9', 'a', 'b'].contains(&chars[19])
        && chars.iter().all(|c| *c == '-' || c.is_ascii_digit() || ('a'..='f').contains(c))
}

#[test]
fn entries_get_fresh_ids_and_the_time() {
    let kind = || SessionEntryKind::ThinkingLevelChange { level: text("low") };
    let a = SessionEntry::new(None, kind());
    let b = SessionEntry::new(Some(a.id.clone()), kind());
    assert!(is_random_id(&a.id));
    assert!(a.id != b.id);
    assert_eq!(b.parent_id, Some(a.id));
    assert!(a.timestamp.ends_with("+00:00"));
    assert!(a.timestamp.contains('T'));
    let (store, header) = SessionStore::create("data", None, None);
    assert!(is_random_id(&store.session_id));
    assert_eq!(header.session_id, store.session_id);
    assert!(header.created_at.ends_with("+00:00"));
}

#[test]
fn meetings_are_numbered() {
    assert_eq!(meeting_id_at("20250101T101010", 7), "meeting-20250101T101010-0007");
    assert_eq!(meeting_id_at("20250101T101010", 12345), "meeting-20250101T101010-12345");
    let id = next_meeting_id(7);
    assert!(id.starts_with("meeting-"));
    assert!(id.ends_with("-0007"));
    let time: Vec<char> = id["meeting-".len()..id.len() - "-0007".len()].chars().collect();
    assert!(time.len() >= 15);
    assert_eq!(time[time.len() - 7], 'T');
    assert!(time.iter().all(|c| c.is_ascii_digit() || *c == 'T' || *c == '+'));
    assert!(next_meeting_id(8) != next_meeting_id(9));
}

#[test]
fn the_runtime_library_is_looked_for() {
    let found = vec![text("/py/39/lib.dll"), text("/py/311/lib.dll"), text("/py/310/lib.dll")];
    assert_eq!(choose_library(&vec![text("/a"), text("/b")], &found), Some(text("/a")));
    assert_eq!(choose_library(&vec![], &found), Some(text("/py/39/lib.dll")));
    assert_eq!(choose_library(&vec![], &vec![]), None);
    assert_eq!(beside_executable("/exe").len(), 2);
    assert!(in_python("/py").ends_with("onnxruntime.dll"));
    assert_eq!(inference_threads(Some(8)), 4);
    assert_eq!(inference_threads(Some(1)), 1);
    assert_eq!(inference_threads(None), 2);
    assert_eq!(output_shape(&vec![1, 20, 300]), Ok((20, 300)));
    assert_eq!(output_shape(&vec![1, 20]), Err(text("unexpected logits shape: [1, 20]")));
}

#[test]
fn paths_are_ordered_part_by_part() {
    assert!(precedes("C:/P/Python311/x", "C:/P/Python311-32/x"));
    assert!(precedes("C:\\P\\a", "C:/P/b"));
    assert!(!precedes("/a/b", "/a//./b/") && !precedes("/a//./b/", "/a/b"));
    assert!(precedes("/a/b", "/a/b/c"));
    assert!(precedes("/a", "a") && precedes("./a", "a") && precedes("../a", "!a"));
    let found = vec![text("C:/P/Python311-32/x"), text("C:/P/Python311/x")];
    assert_eq!(choose_library(&vec![], &found), Some(text("C:/P/Python311-32/x")));
    let equal = vec![text("/p/x"), text("/p//x"), text("/o/x")];
    assert_eq!(choose_library(&vec![], &equal), Some(text("/p//x")));
}

#[test]
fn an_absolute_name_takes_the_place_of_the_directory() {
    assert_eq!(join("/a", "b.json"), "/a/b.json");
    assert_eq!(join("/a", "/b.json"), "/b.json");
    assert_eq!(join("C:\\a", "D:\\b"), "D:\\b");
    assert_eq!(join("C:\\a", "\\b"), "C:\\b");
    assert_eq!(join("C:\\a", "\\\\host\\share"), "\\\\host\\share");
    assert_eq!(join("C:", "b"), "C:b");
    assert_eq!(join("a\\", "b"), "a\\b");
    assert_eq!(join("", "b"), "b");
}

#[test]
fn the_archive_of_the_streaming_model_is_reported() {
    assert!(archive_path("models").ends_with("zipformer-download.tar.bz2"));
    let event = progress_event(Progress::Archive { downloaded: 5, size: Some(9) });
    assert!(matches!(event, DownloadEvent::File { name, downloaded: 5, size: Some(9), .. }
        if name == "zipformer-model.tar.bz2"));
    assert!(matches!(progress_event(Progress::Unpacking), DownloadEvent::File { name, .. }
        if name == "解压中…"));
    assert!(sensevoice_default_dir("app").ends_with("SenseVoiceSmall-onnx"));
}

#[test]
fn the_latest_comes_first() {
    let keys = vec![text("2024"), text("2026"), text("2025"), text("2026")];
    assert_eq!(descending_order(&keys), vec![1, 3, 2, 0]);
}

#[test]
fn scene_templates_differ() {
    assert_eq!(blank_scene_template().preset_key, "custom");
    assert!(default_scene_template().preset_key != blank_scene_template().preset_key);
}

#[test]
fn a_wiped_history_holds_only_what_came_later() {
    let item = |id: &str| HistoryItem {
        id: text(id),
        timestamp: text("t"),
        text: text("x"),
        duration_ms: 0,
    };
    let mut history = apply_to_history(vec![item("old")], StorageOp::AddHistory(item("a")));
    assert_eq!(history.len(), 2);
    history = apply_to_history(history, StorageOp::ClearHistory);
    assert!(history.is_empty());
    history = apply_to_history(history, StorageOp::AddHistory(item("b")));
    assert_eq!(history.len(), 1);
    assert_eq!(history[0].id, "b");
}

#[test]
fn text_is_sent_only_for_polishing() {
    assert!(matches!(plan_transcription("said", false, false), TranscriptionPlan::Plain));
    assert!(matches!(plan_transcription("said", true, false), TranscriptionPlan::Polish));
    assert!(matches!(plan_transcription("said", false, true), TranscriptionPlan::Plain));
    assert!(matches!(plan_transcription(" ", true, true), TranscriptionPlan::Skip));
    let failed = finish_polish(text("said"), PolishOutcome::Failed(text("net")));
    assert_eq!(failed.text, Some(text("said")));
    assert_eq!(failed.error, Some(text("net")));
    assert!(finish_polish(text("said"), PolishOutcome::Cancelled).text.is_none());
}

#[test]
fn a_complete_model_is_not_fetched_again() {
    let (mut download, _, mut step) = ModelDownload::start("models");
    let mut sizes = Vec::new();
    for i in 0..REQUIRED_COUNT {
        assert!(matches!(step, DownloadStep::Look { .. }));
        sizes.push(Some(required_size(i)));
        let (event, next) = download.looked(Some(required_size(i)));
        assert!(event.is_some());
        step = next;
    }
    assert!(matches!(step, DownloadStep::Finished));
    assert!(is_present(true, &sizes));
}

#[test]
fn one_click_at_each_end_does_not_polish() {
    let at = |now: u64| Moment {
        processing: false,
        cancelled: false,
        forced_polish: false,
        agent_mode: false,
        now,
    };
    let mut dictation = Dictation::new();
    assert!(matches!(dictation.click(at(0)),
        DictationAction::BeginRecording { intent: DictationIntent::Raw, skill_mode: false }));
    dictation.recording_begun(DictationIntent::Raw, true, 0);
    let (id, intent) = match dictation.click(at(5_000)) {
        DictationAction::StopRecording { session_id, intent } => (session_id, intent),
        _ => panic!("the recording stops"),
    };
    dictation.recording_stopped(id, intent, true);
    assert!(dictation.window_elapsed(id).is_none());
    assert!(matches!(dictation.asr_finished(id, Ok(text("said"))).finalize,
        Some(Finalize::Dispatch { polish: false, .. })));
}
