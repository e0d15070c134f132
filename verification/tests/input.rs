use voxclaw::agent::error::AgentError;
use voxclaw::agent::message::{ActionSummary, AgentResult};
use voxclaw::dictation::{Dictation, DictationAction, Finalize, Moment};
use voxclaw::input_listener::{
    HoldTrigger, InputEvent, InputListener, ListenerState, RawInput, Trigger, RI_KEY_BREAK,
    RI_KEY_E0, RI_MOUSE_MIDDLE_BUTTON_DOWN, RI_MOUSE_MIDDLE_BUTTON_UP, VK_MENU, VK_RMENU,
};
use voxclaw::keyboard::{
    key_to_vk, send_key_click, send_key_press, send_key_release, Key, KeyInput, KEYEVENTF_KEYUP,
    KEYEVENTF_UNICODE, KEYEVENTF_UNICODE_UP,
};
use voxclaw::recording::{
    acts_on_update, begun_reports, output_steps, selected_text, stop_skill_recording,
    ClipboardStep, Report, SkillStop,
};
use voxclaw::state::{DictationIntent, DictationState, SkillExecutionSession};
use voxclaw::storage::{AgentConfig, LlmConfig};
use voxclaw::transcription::{
    assemble_system_prompt, finish_agent_run, finish_plain, finish_polish, plan_agent_run,
    plan_transcription, AgentPlan, PolishOutcome, TranscriptionPlan,
};
use voxclaw::window::{
    hide_indicator_steps, indicator_style, show_indicator_steps, WindowStep, WS_EX_LAYERED,
    WS_EX_TRANSPARENT,
};

// ---------------------------------------------------------------------------
// Triggers
// ---------------------------------------------------------------------------

#[test]
fn a_short_press_is_a_click() {
    let mut t = HoldTrigger::new();
    let generation = t.on_press().unwrap();
    assert_eq!(t.on_press(), None);
    assert!(matches!(t.on_release(), Some(InputEvent::Click)));
    assert!(t.hold_elapsed(generation).is_none());
    let again = t.on_press().unwrap();
    assert_ne!(again, generation);
    assert!(t.hold_elapsed(generation).is_none());
}

#[test]
fn a_long_press_is_a_skill() {
    let mut t = HoldTrigger::new();
    let generation = t.on_press().unwrap();
    assert!(matches!(t.hold_elapsed(generation), Some(InputEvent::StartSkill)));
    assert!(t.hold_elapsed(generation).is_none());
    assert!(matches!(t.on_release(), Some(InputEvent::StopSkill)));
    assert!(t.on_release().is_none());
}

#[test]
fn triggers_are_told_apart() {
    let mut state = ListenerState::new();
    let listener = InputListener::new();
    let down = RawInput::Mouse { flags: RI_MOUSE_MIDDLE_BUTTON_DOWN };
    let up = RawInput::Mouse { flags: RI_MOUSE_MIDDLE_BUTTON_UP };
    let generation = match state.handle_raw_input(listener, down).timer {
        Some((Trigger::MiddleButton, g)) => g,
        _ => panic!("a timer is started"),
    };
    let alt = RawInput::Keyboard { vkey: VK_MENU, flags: RI_KEY_E0 };
    assert!(matches!(
        state.handle_raw_input(listener, alt).timer,
        Some((Trigger::RightAlt, _))
    ));
    assert!(matches!(
        state.timer_elapsed(Trigger::MiddleButton, generation),
        Some(InputEvent::StartSkill)
    ));
    assert!(matches!(
        state.handle_raw_input(listener, up).event,
        Some(InputEvent::StopSkill)
    ));
    let alt_up = RawInput::Keyboard { vkey: VK_RMENU, flags: RI_KEY_BREAK };
    assert!(matches!(
        state.handle_raw_input(listener, alt_up).event,
        Some(InputEvent::Click)
    ));
    let left_alt = RawInput::Keyboard { vkey: VK_MENU, flags: 0 };
    assert!(state.handle_raw_input(listener, left_alt).timer.is_none());
    assert!(state.handle_raw_input(listener, RawInput::Other).event.is_none());
}

#[test]
fn triggers_can_be_switched_off() {
    let mut state = ListenerState::new();
    let listener = InputListener { enable_mouse: false, enable_alt: false };
    let down = RawInput::Mouse { flags: RI_MOUSE_MIDDLE_BUTTON_DOWN };
    assert!(state.handle_raw_input(listener, down).timer.is_none());
    let alt = RawInput::Keyboard { vkey: VK_RMENU, flags: 0 };
    assert!(state.handle_raw_input(listener, alt).timer.is_none());
}

// ---------------------------------------------------------------------------
// Keys
// ---------------------------------------------------------------------------

#[test]
fn a_release_undoes_a_press() {
    assert_eq!(key_to_vk(Key::Control), Some(0x11));
    assert_eq!(key_to_vk(Key::Unicode('v')), Some(0x56));
    assert_eq!(send_key_press(Key::Control), vec![KeyInput { vk: 0x11, scan: 0, flags: 0 }]);
    assert_eq!(
        send_key_release(Key::Control),
        vec![KeyInput { vk: 0x11, scan: 0, flags: KEYEVENTF_KEYUP }]
    );
    assert_eq!(
        send_key_click(Key::Unicode('你')),
        vec![
            KeyInput { vk: 0, scan: 0x4f60, flags: KEYEVENTF_UNICODE },
            KeyInput { vk: 0, scan: 0x4f60, flags: KEYEVENTF_UNICODE_UP },
        ]
    );
    let wide = send_key_press(Key::Unicode('😀'));
    let units: Vec<u16> = wide.iter().map(|i| i.scan).collect();
    assert_eq!(units, vec![0xd83d, 0xde00]);
}

// ---------------------------------------------------------------------------
// Dictation
// ---------------------------------------------------------------------------

fn at(now: u64) -> Moment {
    Moment { processing: false, cancelled: false, forced_polish: false, agent_mode: false, now }
}

/// Records from 0 and stops at 1000.
fn stopped() -> Dictation {
    let mut d = Dictation::new();
    match d.click(at(0)) {
        DictationAction::BeginRecording { intent, skill_mode: false } => {
            d.recording_begun(intent, true, 0)
        }
        _ => panic!("a recording begins"),
    }
    match d.click(at(1_000)) {
        DictationAction::StopRecording { session_id, intent } => {
            assert_eq!(session_id, 1);
            d.recording_stopped(session_id, intent, true);
        }
        _ => panic!("the recording is stopped"),
    }
    d
}

#[test]
fn window_and_transcript_commute() {
    let mut first = stopped();
    assert!(first.window_elapsed(1).is_none());
    let turn = first.asr_finished(1, Ok("text".to_string()));
    assert!(turn.recognition_done);
    assert!(matches!(
        turn.finalize,
        Some(Finalize::Dispatch { text, polish: false }) if text == "text"
    ));
    let mut second = stopped();
    assert!(second.asr_finished(1, Ok("text".to_string())).finalize.is_none());
    assert!(matches!(
        second.window_elapsed(1),
        Some(Finalize::Dispatch { text, polish: false }) if text == "text"
    ));
    assert!(matches!(first.state, DictationState::Idle));
    assert!(matches!(second.state, DictationState::Idle));
}

#[test]
fn a_dictation_is_finished_once() {
    let mut d = stopped();
    assert!(d.window_elapsed(2).is_none());
    assert!(d.window_elapsed(1).is_none());
    assert!(matches!(
        d.asr_finished(1, Err("lost".to_string())).finalize,
        Some(Finalize::Fail { error }) if error == "lost"
    ));
    assert!(d.asr_finished(1, Ok("late".to_string())).finalize.is_none());
    assert!(d.window_elapsed(1).is_none());
}

#[test]
fn clicks_only_add_polish() {
    let mut d = stopped();
    assert!(matches!(d.click(at(1_100)), DictationAction::Announce(DictationIntent::Polish)));
    assert!(matches!(d.click(at(1_150)), DictationAction::Ignore));
    assert!(d.window_elapsed(1).is_none());
    assert!(matches!(
        d.asr_finished(1, Ok("t".to_string())).finalize,
        Some(Finalize::Dispatch { polish: true, .. })
    ));
    let mut early = Dictation::new();
    let _ = early.click(at(0));
    early.recording_begun(DictationIntent::Raw, true, 0);
    assert!(matches!(early.click(at(280)), DictationAction::Announce(DictationIntent::Polish)));
    match early.click(at(281)) {
        DictationAction::StopRecording { intent, .. } => {
            assert!(matches!(intent, DictationIntent::Polish))
        }
        _ => panic!("the window has closed"),
    }
}

#[test]
fn what_is_processed_is_cancelled_first() {
    let mut d = Dictation::new();
    let busy = Moment { processing: true, ..at(0) };
    assert!(matches!(d.click(busy), DictationAction::CancelPending));
    let again = Moment { cancelled: true, ..busy };
    assert!(matches!(d.click(again), DictationAction::Ignore));
    assert!(matches!(d.start_skill(busy), DictationAction::CancelPending));
    assert!(matches!(
        d.start_skill(Moment { agent_mode: true, ..at(0) }),
        DictationAction::BeginRecording { intent: DictationIntent::Agent, skill_mode: true }
    ));
    d.recording_begun(DictationIntent::Agent, true, 0);
    assert!(matches!(d.stop_skill(), DictationAction::StopAgent));
    d.recording_begun(DictationIntent::Skill, true, 0);
    assert!(matches!(d.stop_skill(), DictationAction::StopSkill));
    d.recording_begun(DictationIntent::Raw, false, 0);
    assert!(matches!(d.state, DictationState::Idle));
}

// ---------------------------------------------------------------------------
// Transcripts
// ---------------------------------------------------------------------------

#[test]
fn transcripts_are_polished_where_it_is_switched_on() {
    assert!(matches!(plan_transcription("  ", true, true), TranscriptionPlan::Skip));
    assert!(matches!(plan_transcription("a", true, false), TranscriptionPlan::Polish));
    assert!(matches!(plan_transcription("a", true, true), TranscriptionPlan::Polish));
    assert!(matches!(plan_transcription("a", false, true), TranscriptionPlan::Plain));
    assert!(matches!(plan_transcription("a", false, false), TranscriptionPlan::Plain));
    let failed = finish_polish("raw".to_string(), PolishOutcome::Failed("e".to_string()));
    assert_eq!(failed.text.as_deref(), Some("raw"));
    assert_eq!(failed.error.as_deref(), Some("e"));
    let done = finish_polish(
        "raw".to_string(),
        PolishOutcome::Corrected { final_text: "fine".to_string(), fallback_reason: None },
    );
    assert_eq!(done.text.as_deref(), Some("fine"));
    assert!(finish_polish("raw".to_string(), PolishOutcome::Cancelled).text.is_none());
    assert!(finish_plain(" ".to_string()).text.is_none());
    assert_eq!(finish_plain(" raw ".to_string()).text.as_deref(), Some(" raw "));
}

#[test]
fn the_agent_needs_a_model() {
    let agent = AgentConfig::default();
    let llm = LlmConfig::default();
    assert!(matches!(plan_agent_run(" ", &agent, &llm), AgentPlan::Skip));
    assert!(matches!(plan_agent_run("do", &agent, &llm), AgentPlan::PasteText));
    let llm = LlmConfig { api_key: "k".to_string(), ..llm };
    match plan_agent_run("do", &agent, &llm) {
        AgentPlan::Run(setup) => {
            assert_eq!(setup.base_url, "https://api.openai.com/v1");
            assert_eq!(setup.api_key, "k");
            assert_eq!(setup.model, "gpt-4o-mini");
        }
        _ => panic!("the model is set up"),
    }
}

#[test]
fn the_prompt_holds_the_selection() {
    let agent = AgentConfig {
        system_prompt: " Be brief. ".to_string(),
        persistent_context: String::new(),
        context_history_count: 0,
        ..AgentConfig::default()
    };
    let bare = assemble_system_prompt(&agent, "", &vec![]);
    assert!(bare.starts_with("Be brief."));
    let with = assemble_system_prompt(&agent, "selected words", &vec![]);
    assert!(with.starts_with("Be brief."));
    assert!(with.contains("selected words"));
}

#[test]
fn answers_are_pasted_unless_something_was_done() {
    let answer = |actions: Vec<ActionSummary>| AgentResult { text: "ok".to_string(), actions };
    let quiet = finish_agent_run("q".to_string(), Ok(answer(vec![])));
    assert_eq!(quiet.paste.as_deref(), Some("ok"));
    let acted = finish_agent_run(
        "q".to_string(),
        Ok(answer(vec![ActionSummary {
            tool_name: "bash".to_string(),
            success: true,
            output_preview: String::new(),
        }])),
    );
    assert!(acted.paste.is_none());
    assert_eq!(acted.tool_names, vec!["bash".to_string()]);
    assert_eq!(acted.history_text.as_deref(), Some("ok"));
    let lost = finish_agent_run("q".to_string(), Err(AgentError::Http("x".to_string())));
    assert_eq!(lost.paste.as_deref(), Some("q"));
    let cancelled = finish_agent_run("q".to_string(), Err(AgentError::Cancelled));
    assert!(cancelled.paste.is_none());
}

// ---------------------------------------------------------------------------
// Recordings and windows
// ---------------------------------------------------------------------------

#[test]
fn recordings_are_reported() {
    assert_eq!(begun_reports(DictationIntent::Raw).len(), 3);
    assert!(matches!(begun_reports(DictationIntent::Raw)[0], Report::RecordingStatus(true)));
    let mut none = None;
    assert!(matches!(stop_skill_recording(&mut none, true), SkillStop::Nothing));
    let mut some = Some(SkillExecutionSession::new(4));
    assert!(matches!(stop_skill_recording(&mut some, true), SkillStop::Wait(4)));
    assert!(some.is_some());
    assert!(matches!(stop_skill_recording(&mut some, false), SkillStop::Nothing));
    assert!(some.is_none());
    assert!(acts_on_update(" x "));
    assert!(!acts_on_update(" \n"));
    assert_eq!(output_steps()[0], ClipboardStep::SleepMs(80));
    assert_eq!(selected_text(None), "");
    assert_eq!(selected_text(Some("s".to_string())), "s");
}

#[test]
fn the_indicator_lets_the_mouse_through() {
    let through = indicator_style(1, true);
    assert_eq!(through, 1 | WS_EX_TRANSPARENT | WS_EX_LAYERED);
    assert_eq!(indicator_style(through, false), 1 | WS_EX_LAYERED);
    assert_eq!(
        show_indicator_steps(),
        vec![WindowStep::Collapse, WindowStep::ClickThrough(false), WindowStep::Show]
    );
    assert_eq!(hide_indicator_steps(), vec![WindowStep::ClickThrough(true), WindowStep::Hide]);
}
