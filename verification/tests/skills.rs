use voxclaw::skill_engine::{
    advance_skill_transcript_consumed, begin_browser_navigation, complete_skill_action,
    config_skill_requires_more_input, confirm_streaming_browser_open_action,
    finish_browser_navigation, normalize_direct_windows_query, plan_config_skill_update,
    prepare_skill_transcript, reserve_skill_action, split_skill_clause,
    start_skill_execution_session, NavigationStart, SiteAnswer,
};
use voxclaw::skill_run::{BrowserFacts, ClauseFacts, SkillAction, SkillRun};
use voxclaw::skills::{
    resolve_scene, BrowserAction, BrowserActionPlan, BrowserOptions, BrowserPlanResult,
    SceneResolveResult, SkillMatch, SWITCH_POLISH_SCENE_SKILL_ID,
};
use voxclaw::state::{
    ConfigSkillPlan, SkillExecutionSession, SkillExecutionState, VoiceCommandFeedback,
};
use voxclaw::storage::{AppConfig, PromptProfile};

fn expect_saved_config(plan: ConfigSkillPlan) -> (AppConfig, VoiceCommandFeedback) {
    match plan {
        ConfigSkillPlan::Save { config, feedback } => (*config, feedback),
        ConfigSkillPlan::Feedback(feedback) => {
            panic!("expected saved config, got feedback: {}", feedback.message)
        }
    }
}

fn profile(id: &str, name: &str, voice_aliases: &[&str]) -> PromptProfile {
    PromptProfile {
        id: id.to_string(),
        name: name.to_string(),
        voice_aliases: voice_aliases
            .iter()
            .map(|alias| alias.to_string())
            .collect(),
        ..PromptProfile::new_default()
    }
}

fn test_skill_state() -> SkillExecutionState {
    Some(SkillExecutionSession::new(7))
}

fn switch_match() -> SkillMatch {
    SkillMatch {
        skill_id: SWITCH_POLISH_SCENE_SKILL_ID.to_string(),
        keyword: "切换到".to_string(),
        start: 0,
        end: "切换到".len(),
    }
}

#[test]
fn split_skill_clause_stops_at_first_separator() {
    let input = "控制面板，打开命令提示符";
    let (clause, consumed_end) = split_skill_clause(input);

    assert_eq!(clause, "控制面板");
    assert_eq!(&input[consumed_end..], "打开命令提示符");
}

#[test]
fn prepare_skill_transcript_can_continue_after_unmatched_intro_clause() {
    let mut state = test_skill_state();
    let transcript = "那现在的话，我可以直接跟他说，帮我切换到中译英";
    let (first_clause, consumed_end) = split_skill_clause(transcript);

    assert_eq!(first_clause, "那现在的话");

    advance_skill_transcript_consumed(&mut state, 7, transcript, consumed_end);
    let prepared =
        prepare_skill_transcript(&mut state, 7, transcript).expect("expected remaining clause");

    assert_eq!(prepared.0, "我可以直接跟他说，帮我切换到中译英");
}

#[test]
fn normalize_direct_windows_query_strips_open_prefix_and_page_suffix() {
    assert_eq!(normalize_direct_windows_query("打开设置页面"), "设置");
}

#[test]
fn switch_scene_matches_voice_alias() {
    let mut config = AppConfig::default();
    config.llm_config.profiles = vec![
        profile("default", "默认", &[]),
        profile("email", "邮件写作", &["邮件"]),
    ];
    config.llm_config.active_profile_id = "default".to_string();

    let transcript = "切换到邮件";
    let plan = plan_config_skill_update(transcript, &switch_match(), None, &config)
        .expect("plan should succeed");

    let (next_config, feedback) = expect_saved_config(plan);
    assert_eq!(next_config.llm_config.active_profile_id, "email");
    assert_eq!(feedback.message, "\u{5df2}\u{5207}\u{6362}\u{5230}\u{573a}\u{666f}\u{201c}\u{90ae}\u{4ef6}\u{5199}\u{4f5c}\u{201d}");
}

#[test]
fn switch_scene_falls_back_to_profile_name() {
    let mut config = AppConfig::default();
    config.llm_config.profiles = vec![profile("meeting", "会议纪要", &[])];
    config.llm_config.active_profile_id = "meeting".to_string();

    let plan = plan_config_skill_update("切换到会议纪要模式", &switch_match(), None, &config)
        .expect("plan should succeed");

    match plan {
        ConfigSkillPlan::Feedback(feedback) => {
            assert_eq!(feedback.message, "\u{5f53}\u{524d}\u{5df2}\u{7ecf}\u{662f}\u{573a}\u{666f}\u{201c}\u{4f1a}\u{8bae}\u{7eaa}\u{8981}\u{201d}");
        }
        ConfigSkillPlan::Save { .. } => panic!("expected no-op feedback when already active"),
    }
}

#[test]
fn switch_scene_reports_alias_conflicts() {
    let mut config = AppConfig::default();
    config.llm_config.profiles = vec![
        profile("email", "邮件", &["客服"]),
        profile("support", "客服回复", &["客服"]),
    ];

    let plan = plan_config_skill_update("切换到客服", &switch_match(), None, &config)
        .expect("plan should succeed");

    match plan {
        ConfigSkillPlan::Feedback(feedback) => {
            assert_eq!(feedback.level, "error");
            assert!(feedback.message.contains("匹配到多个场景"));
            assert_eq!(feedback.message, "匹配到多个场景：邮件、客服回复");
        }
        ConfigSkillPlan::Save { .. } => panic!("expected ambiguity feedback"),
    }
}

#[test]
fn switch_scene_waits_for_scene_name_during_streaming() {
    let skill_match = switch_match();

    assert!(config_skill_requires_more_input("切换到", &skill_match, None));
    assert!(!config_skill_requires_more_input("切换到中译英", &skill_match, None));
}

#[test]
fn prepare_skill_transcript_removes_consumed_prefix_and_leading_punctuation() {
    let mut state = test_skill_state();
    advance_skill_transcript_consumed(&mut state, 7, "打开新浪", "打开新浪".len());

    let prepared = prepare_skill_transcript(&mut state, 7, "打开新浪。打开谷歌")
        .expect("expected remaining transcript");

    assert_eq!(prepared, ("打开谷歌".to_string(), "打开新浪。".len()));
}

#[test]
fn prepare_skill_transcript_rewinds_to_common_prefix_when_asr_rewrites_text() {
    let mut state = test_skill_state();
    advance_skill_transcript_consumed(&mut state, 7, "打开新浪", "打开新浪".len());

    let prepared = prepare_skill_transcript(&mut state, 7, "打开新郎")
        .expect("expected rewritten transcript");

    assert_eq!(prepared, ("郎".to_string(), "打开新".len()));
}

#[test]
fn streaming_browser_open_requires_two_matching_updates() {
    let mut state = test_skill_state();

    assert!(!confirm_streaming_browser_open_action(&mut state, 7, "browser:open_target:新浪"));
    assert!(confirm_streaming_browser_open_action(&mut state, 7, "browser:open_target:新浪"));
    assert!(!confirm_streaming_browser_open_action(&mut state, 7, "browser:open_target:谷歌"));
}

#[test]
fn an_executed_action_never_runs_again() {
    let mut state = test_skill_state();
    assert!(reserve_skill_action(&mut state, 7, "open"));
    assert!(!reserve_skill_action(&mut state, 7, "open"));
    complete_skill_action(&mut state, 7, "open", true);
    assert!(!reserve_skill_action(&mut state, 7, "open"));
    assert!(reserve_skill_action(&mut state, 7, "close"));
    complete_skill_action(&mut state, 7, "close", false);
    assert!(reserve_skill_action(&mut state, 7, "close"));
    assert!(!reserve_skill_action(&mut state, 8, "other"));
}

#[test]
fn a_clause_makes_progress() {
    for s in ["，，打开", "打开", "a, b", "a"] {
        let (_, end) = split_skill_clause(s);
        assert!(end > 0 && end <= s.len());
    }
}

#[test]
fn sessions_are_numbered() {
    let mut state = None;
    let mut sequence = 1;
    let _ = start_skill_execution_session(&mut state, &mut sequence);
    let _ = start_skill_execution_session(&mut state, &mut sequence);
    assert_eq!(sequence, 3);
    assert_eq!(voxclaw::skill_engine::current_skill_execution_session_id(&state), Some(2));
}

fn options() -> BrowserOptions {
    BrowserOptions {
        llm_site_resolution_enabled: true,
        search_fallback_enabled: true,
        search_url_template: "https://s/?q={query}".to_string(),
    }
}

#[test]
fn addresses_are_opened_at_once() {
    let url = Some("https://a".to_string());
    assert!(matches!(
        begin_browser_navigation("a", url, None, Some(&options())),
        NavigationStart::Open { url, .. } if url == "https://a"
    ));
    assert!(matches!(
        begin_browser_navigation("a", None, None, Some(&options())),
        NavigationStart::AskModel
    ));
    let answered = finish_browser_navigation(
        "a",
        &options(),
        SiteAnswer::Failed("offline".to_string()),
        Ok("https://s/?q=a".to_string()),
    );
    match answered {
        Ok((url, _)) => assert_eq!(url, "https://s/?q=a"),
        Err(e) => panic!("{}", e),
    }
}

#[test]
fn scenes_are_found_by_alias_and_name() {
    let profiles = vec![profile("a", "邮件", &["写信"]), profile("b", "翻译", &["写信", "中译英"])];
    assert!(matches!(
        resolve_scene(&profiles, "中译英"),
        SceneResolveResult::Unique { profile_id, .. } if profile_id == "b"
    ));
    assert!(matches!(
        resolve_scene(&profiles, "邮件"),
        SceneResolveResult::Unique { profile_id, .. } if profile_id == "a"
    ));
    assert!(matches!(resolve_scene(&profiles, "写信"), SceneResolveResult::Ambiguous(_)));
    assert!(matches!(resolve_scene(&profiles, "诗"), SceneResolveResult::Unknown));
}

fn nothing() -> ClauseFacts {
    ClauseFacts { matches: vec![], direct_target_known: false, windows: None, browser: None }
}

fn refreshes(end: usize) -> ClauseFacts {
    ClauseFacts {
        browser: Some(BrowserFacts {
            planned: BrowserPlanResult::Action(BrowserActionPlan {
                action: BrowserAction::Refresh,
                action_name: "refresh".to_string(),
                note: None,
                consumed_end: end,
            }),
            is_url: false,
            is_site: false,
        }),
        ..nothing()
    }
}

#[test]
fn a_finished_action_is_not_run_again() {
    let mut state = test_skill_state();
    let text = "刷新网页";
    let (mut run, first) = SkillRun::start(&mut state, 7, text.to_string(), true);
    assert!(matches!(first, SkillAction::Examine { clause } if clause == text));
    let (action, told) = run.examined(&mut state, refreshes(text.len()));
    assert!(matches!(
        action,
        SkillAction::RunBrowser { plan } if matches!(plan.action, BrowserAction::Refresh)
    ));
    assert!(told.is_empty());
    let (action, _) = run.finished(&mut state, Ok(()));
    assert!(matches!(action, SkillAction::Done));

    let mut other = text.to_string();
    other.push_str("，刷新");
    let (mut run, first) = SkillRun::start(&mut state, 7, other, true);
    assert!(matches!(first, SkillAction::Examine { clause } if clause == "刷新"));
    let (action, _) = run.examined(&mut state, refreshes("刷新".len()));
    assert!(!matches!(action, SkillAction::RunBrowser { .. }));
}

#[test]
fn a_clause_that_asks_for_nothing_is_passed_over() {
    let mut state = test_skill_state();
    let (mut run, first) = SkillRun::start(&mut state, 7, "你好，世界".to_string(), true);
    assert!(matches!(first, SkillAction::Examine { clause } if clause == "你好"));
    let (next, told) = run.examined(&mut state, nothing());
    assert!(matches!(next, SkillAction::Examine { clause } if clause == "世界"));
    assert!(told.is_empty());
    let (last, _) = run.examined(&mut state, nothing());
    assert!(matches!(last, SkillAction::Done));
}

#[test]
fn overlapping_passes_share_what_has_run() {
    let mut state = test_skill_state();
    let text = "刷新网页";
    let (mut first, _) = SkillRun::start(&mut state, 7, text.to_string(), false);
    let (mut second, _) = SkillRun::start(&mut state, 7, text.to_string(), false);
    let (action, _) = first.examined(&mut state, refreshes(text.len()));
    assert!(matches!(action, SkillAction::RunBrowser { .. }));
    let (action, _) = second.examined(&mut state, refreshes(text.len()));
    assert!(matches!(action, SkillAction::Done));
    let (action, _) = first.finished(&mut state, Err("no".to_string()));
    assert!(matches!(action, SkillAction::Done));
    let (mut third, _) = SkillRun::start(&mut state, 7, text.to_string(), true);
    let (action, _) = third.examined(&mut state, refreshes(text.len()));
    assert!(!matches!(action, SkillAction::RunBrowser { .. }));
}

#[test]
fn a_blank_transcript_asks_for_nothing() {
    let mut state = test_skill_state();
    let (_, action) = SkillRun::start(&mut state, 7, " \n".to_string(), true);
    assert!(matches!(action, SkillAction::Done));
}
