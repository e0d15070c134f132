use voxclaw::skills::{merge_with_default_skills, SkillConfig};
use voxclaw::storage::{
    apply_to_history, asr_config_eq, default_scene_profiles, invalid_config_name,
    is_meeting_file, load_config_with_recovery, proxy_config_eq,
    recover_app_config_from_object, recover_llm_config, stored_file, without_item, AppConfig, AsrConfig, AsrProviderKind, DecodedFields, HistoryItem,
    LlmConfig, OnlineAsrConfig, PromptProfile, ProxyConfig, StorageOp, StorageService, Stored,
    StoredConfig, StoredFile,
};

#[test]
fn migrates_legacy_profile_content_into_advanced_instruction() {
    let mut config = LlmConfig {
        profiles: vec![PromptProfile {
            id: "legacy".to_string(),
            name: "Legacy".to_string(),
            content: "Return [fixed] text".to_string(),
            ..PromptProfile::new_default()
        }],
        active_profile_id: "legacy".to_string(),
        ..LlmConfig::default()
    };

    assert!(config.migrate_if_needed());

    let profile = &config.profiles[0];
    assert_eq!(profile.preset_key, "custom");
    assert_eq!(profile.advanced_instruction, "Return [fixed] text");
    assert!(profile.expert_mode);
    assert!(profile.legacy_imported);
    assert!(profile.content.is_empty());
}

#[test]
fn migrates_custom_prompt_into_visible_scene() {
    let mut config = LlmConfig {
        custom_prompt: "Legacy prompt".to_string(),
        ..LlmConfig::default()
    };

    assert!(config.migrate_if_needed());

    let profile = config
        .profiles
        .iter()
        .find(|profile| profile.id == config.active_profile_id)
        .expect("active imported profile");

    assert_eq!(profile.preset_key, "custom");
    assert_eq!(profile.advanced_instruction, "Legacy prompt");
    assert!(profile.legacy_imported);
    assert!(profile.expert_mode);
}

#[test]
fn invalid_llm_config_resets_to_default_profile() {
    let (config, changed, notice) = recover_llm_config(Stored::Parsed(LlmConfig {
        enabled: true,
        base_url: "https://api.openai.com/v1".to_string(),
        api_key: "test".to_string(),
        model: "gpt-4o-mini".to_string(),
        profiles: vec![],
        active_profile_id: "missing".to_string(),
        custom_prompt: String::new(),
    }));

    assert!(changed);
    assert!(notice.is_some());
    assert_eq!(config.active_profile_id, "correction");
    assert!(config.profiles.len() >= 1);
    assert_eq!(config.profiles[0].preset_key, "correction");
}

#[test]
fn malformed_llm_value_resets_to_default_profile() {
    let (config, changed, notice) = recover_llm_config(Stored::Malformed);

    assert!(changed);
    assert!(notice.is_some());
    assert_eq!(config.active_profile_id, "correction");
    assert!(config.profiles.len() >= 1);
}

fn skill(id: &str, name: &str, keywords: &str) -> SkillConfig {
    SkillConfig {
        id: id.to_string(),
        name: name.to_string(),
        keywords: keywords.to_string(),
        enabled: true,
        browser_options: None,
        windows_options: None,
    }
}

fn catalogue() -> Vec<SkillConfig> {
    vec![
        skill("open_calculator", "Calculator", "calculator"),
        skill("switch_polish_scene", "Switch scene", "switch scene"),
    ]
}

/// A settings file with the given skills and otherwise ordinary fields.
fn stored(skills: Vec<SkillConfig>) -> StoredConfig {
    StoredConfig {
        has_language: false,
        has_model_version: false,
        llm_config: Stored::Parsed(LlmConfig {
            enabled: false,
            base_url: "https://api.openai.com/v1".to_string(),
            api_key: String::new(),
            model: "gpt-4o-mini".to_string(),
            profiles: vec![PromptProfile {
                id: "default".to_string(),
                name: "Default".to_string(),
                voice_aliases: vec![],
                preset_key: String::new(),
                goal: String::new(),
                tone: String::new(),
                format_style: String::new(),
                preserve_rules: vec![],
                ..PromptProfile::new_default()
            }],
            active_profile_id: "default".to_string(),
            custom_prompt: String::new(),
        }),
        skills: Stored::Parsed(skills),
        has_trigger_hold: false,
        trigger_hold: None,
        trigger_toggle: Some(true),
        trigger_mouse: Some(true),
        asr: Stored::Missing,
        online_asr_config: Stored::Malformed,
        input_device: Some(String::new()),
        proxy: Stored::Malformed,
        agent_config: Stored::Missing,
    }
}

fn has(config: &AppConfig, id: &str) -> bool {
    config.skills.iter().any(|s| s.id == id)
}

#[test]
fn recovers_missing_builtin_skills_from_existing_config() {
    let value = stored(vec![skill("open_calculator", "Calculator", "calculator")]);
    let (config, changed, notice) = recover_app_config_from_object(value, catalogue());

    assert!(changed);
    assert!(notice.is_none());
    assert!(has(&config, "open_calculator"));
    assert!(has(&config, "switch_polish_scene"));
}

#[test]
fn removes_legacy_polish_toggle_skills_from_existing_config() {
    let value = stored(vec![
        skill("enable_polish", "Enable polish", "enable polish"),
        skill("disable_polish", "Disable polish", "disable polish"),
        skill("switch_polish_scene", "Switch scene", "switch scene"),
    ]);
    let (config, changed, notice) = recover_app_config_from_object(value, catalogue());

    assert!(changed);
    assert!(notice.is_none());
    assert!(!has(&config, "enable_polish"));
    assert!(!has(&config, "disable_polish"));
    assert!(has(&config, "switch_polish_scene"));
}

#[test]
fn merging_settles() {
    let mine = vec![skill("enable_polish", "", ""), skill("mine", "Mine", "mine")];
    let (merged, changed) = merge_with_default_skills(mine, catalogue());
    assert!(changed);
    let ids: Vec<&str> = merged.iter().map(|s| s.id.as_str()).collect();
    assert_eq!(ids, vec!["mine", "open_calculator", "switch_polish_scene"]);
    let (again, changed) = merge_with_default_skills(merged.clone(), catalogue());
    assert!(!changed);
    assert_eq!(again.len(), merged.len());
}

#[test]
fn migration_settles() {
    let mut config = LlmConfig { custom_prompt: "p".to_string(), ..LlmConfig::default() };
    assert!(config.migrate_if_needed());
    let ids: Vec<String> = config.profiles.iter().map(|p| p.id.clone()).collect();
    assert!(!config.migrate_if_needed());
    let after: Vec<String> = config.profiles.iter().map(|p| p.id.clone()).collect();
    assert_eq!(ids, after);
    assert_eq!(config.get_active_profile().advanced_instruction, "p");
}

#[test]
fn an_imported_scene_has_an_id_of_its_own() {
    let mut config = LlmConfig { custom_prompt: "one".to_string(), ..LlmConfig::default() };
    assert!(config.migrate_if_needed());
    config.custom_prompt = "two".to_string();
    assert!(config.migrate_if_needed());
    let mut ids: Vec<String> = config.profiles.iter().map(|p| p.id.clone()).collect();
    let count = ids.len();
    ids.sort();
    ids.dedup();
    assert_eq!(ids.len(), count);
    assert_eq!(config.get_active_profile().advanced_instruction, "two");
}

#[test]
fn recovered_settings_stay_as_they_are() {
    let (first, _, _) = recover_llm_config(Stored::Parsed(LlmConfig::default()));
    let (_, changed, notice) = recover_llm_config(Stored::Parsed(first));
    assert!(!changed);
    assert!(notice.is_none());
}

#[test]
fn earlier_credentials_are_kept() {
    let mut value = stored(catalogue());
    value.online_asr_config = Stored::Parsed(OnlineAsrConfig {
        app_key: "a".to_string(),
        access_key: "b".to_string(),
        ..OnlineAsrConfig::default()
    });
    value.trigger_hold = Some(false);
    let (config, changed, _) = recover_app_config_from_object(value, catalogue());
    assert!(changed);
    assert!(matches!(config.asr.provider, AsrProviderKind::Volcengine));
    assert_eq!(config.asr.volcengine.app_key, "a");
    assert!(!config.trigger_toggle);
}

fn no_fields() -> DecodedFields {
    DecodedFields {
        llm_config: Stored::Missing,
        skills: Stored::Missing,
        asr: Stored::Missing,
        online_asr_config: Stored::Missing,
        proxy: Stored::Missing,
        agent_config: Stored::Missing,
    }
}

#[test]
fn the_text_of_the_settings_is_read() {
    assert!(matches!(stored_file(None, no_fields()), StoredFile::Unreadable));
    assert!(matches!(stored_file(Some("{"), no_fields()), StoredFile::NotAnObject));
    assert!(matches!(stored_file(Some("[1]"), no_fields()), StoredFile::NotAnObject));
    let text = r#"{"language": 1, "trigger_hold": "yes", "trigger_mouse": false,
        "input_device": "mic", "proxy": {}, "skills": 5}"#;
    let fields = DecodedFields {
        proxy: Stored::Parsed(ProxyConfig { enabled: true, url: "u".to_string() }),
        skills: Stored::Malformed,
        asr: Stored::Parsed(AsrConfig::default()),
        ..no_fields()
    };
    let file = match stored_file(Some(text), fields) {
        StoredFile::Object(file) => file,
        _ => panic!("the text is an object"),
    };
    assert!(file.has_language && !file.has_model_version && file.has_trigger_hold);
    assert_eq!((file.trigger_hold, file.trigger_toggle), (None, None));
    assert_eq!(file.trigger_mouse, Some(false));
    assert_eq!(file.input_device.as_deref(), Some("mic"));
    assert!(matches!(file.proxy, Stored::Parsed(p) if p.enabled && p.url == "u"));
    assert!(matches!(file.skills, Stored::Malformed));
    assert!(matches!(file.asr, Stored::Missing));
    let odd = stored_file(Some(r#"{"input_device": 3}"#), no_fields());
    assert!(matches!(odd, StoredFile::Object(f) if f.input_device.is_none()));
}

#[test]
fn settings_are_loaded_from_their_text() {
    let text = r#"{"trigger_mouse": false, "trigger_toggle": true, "input_device": "mic"}"#;
    let loaded = load_config_with_recovery(Some(text), no_fields(), catalogue());
    assert!(!loaded.config.trigger_mouse);
    assert!(loaded.config.trigger_toggle);
    assert_eq!(loaded.config.input_device, "mic");
    assert!(!loaded.needs_backup);
    let invalid = load_config_with_recovery(Some("{"), no_fields(), catalogue());
    assert!(invalid.needs_backup);
    assert_eq!(
        invalid_config_name("20260102-030405"),
        "config.invalid-20260102-030405.json"
    );
}

#[test]
fn an_unreadable_file_gives_fresh_settings() {
    let unreadable = load_config_with_recovery(None, no_fields(), catalogue());
    assert_eq!(unreadable.config.skills.len(), 2);
    assert_eq!(unreadable.config.llm_config.profiles.len(), default_scene_profiles().len());
    let mut store = StorageService::new("app");
    let odd = store.load_config(Some("[]"), no_fields(), catalogue());
    assert!(odd.notice.is_some());
    assert!(store.take_runtime_notice().is_some());
    assert!(store.take_runtime_notice().is_none());
}

#[test]
fn settings_are_compared_by_what_they_hold() {
    assert!(proxy_config_eq(&ProxyConfig::default(), &ProxyConfig::default()));
    let other = ProxyConfig { enabled: true, url: String::new() };
    assert!(!proxy_config_eq(&ProxyConfig::default(), &other));
    let mut asr = AsrConfig::default();
    assert!(asr_config_eq(&asr, &AsrConfig::default()));
    asr.sensevoice.language = "xx".to_string();
    assert!(!asr_config_eq(&asr, &AsrConfig::default()));
    let mut asr = AsrConfig::default();
    asr.zipformer.model_dir = "elsewhere".to_string();
    assert!(!asr_config_eq(&asr, &AsrConfig::default()));
    let mut asr = AsrConfig::default();
    asr.zipformer.enable_endpoint = !asr.zipformer.enable_endpoint;
    assert!(!asr_config_eq(&asr, &AsrConfig::default()));
}

fn item(id: &str) -> HistoryItem {
    HistoryItem {
        id: id.to_string(),
        timestamp: "t".to_string(),
        text: format!("text {}", id),
        duration_ms: 5,
    }
}

#[test]
fn deleting_undoes_adding() {
    let history = vec![item("a"), item("b")];
    let added = apply_to_history(history.clone(), StorageOp::AddHistory(item("c")));
    assert_eq!(added.len(), 3);
    let back = without_item(&added, "c");
    let ids: Vec<&str> = back.iter().map(|i| i.id.as_str()).collect();
    assert_eq!(ids, vec!["a", "b"]);
    assert_eq!(apply_to_history(back, StorageOp::ClearHistory).len(), 0);
}

#[test]
fn changes_are_written_in_order() {
    let mut store = StorageService::new("app");
    store.add_history_item(item("a"));
    store.delete_history_item("a".to_string());
    store.delete_meeting("m".to_string());
    assert!(matches!(store.next_op(), Some(StorageOp::AddHistory(_))));
    assert!(matches!(store.next_op(), Some(StorageOp::DeleteHistoryItem(_))));
    assert!(matches!(store.next_op(), Some(StorageOp::DeleteMeeting(_))));
    assert!(store.next_op().is_none());
    assert!(store.meeting_path("m").ends_with("m.json"));
    assert!(is_meeting_file("m.json"));
    assert!(!is_meeting_file("m.wav"));
    store.set_current_session_id(Some("s".to_string()));
    assert_eq!(store.current_session_id().as_deref(), Some("s"));
}
