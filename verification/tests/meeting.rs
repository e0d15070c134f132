use voxclaw::agent::error::AgentError;
use voxclaw::agent::request::{LlmStreamEvent, StopReason};
use voxclaw::asr::TranscriptSegment;
use voxclaw::commands::audio::{
    download_target, get_asr_status, model_downloaded, switch_input_device,
};
use voxclaw::commands::config::{add_safety_rule, save_config};
use voxclaw::commands::meeting::{
    format_short_date, get_active_meeting, init_meeting_state, may_start, meeting_started,
    meeting_stopped, stop_meeting, PolishMeeting,
};
use voxclaw::input_listener::InputListener;
use voxclaw::json::parse;
use voxclaw::meeting::audio::{find_device, frames, level_is_due, MeetingAudioConfig};
use voxclaw::meeting::llm::{
    collect_reply, correct_transcript, extract_json_object, resolve, summarise_transcript,
    summary_error, summary_json, Reply, CORRECTION_SYSTEM,
};
use voxclaw::meeting::loopback::{
    float32_frames, packet_bytes, packet_step, pcm16_frames, sample_format, LoopbackCapture,
    PacketState, PacketStep, SampleFormat,
};
use voxclaw::meeting::pipeline::{
    resample_chunks, PipelineResult, SegmentAccumulator, RESAMPLE_CHUNK,
};
use voxclaw::meeting::session::{
    engine_for_meeting, meeting_draft_audio_path, meeting_id_at, ms_to_samples, next_meeting_id,
    start_meeting, vad_min_silence_ms, ActiveMeeting, EngineProbe, MeetingEngine,
};
use voxclaw::storage::{
    AgentConfig, AppConfig, AsrProviderKind, LlmConfig, MeetingRecord, MeetingStatus,
    MeetingSummary, SafetyRule, StorageOp, StorageService,
};

// ---------------------------------------------------------------------------
// Answers of the model
// ---------------------------------------------------------------------------

#[test]
fn extract_json_handles_fences() {
    let s = "noise ```json\n{\"title\":\"x\",\"key_points\":[]} ``` after";
    let j = extract_json_object(s).unwrap();
    assert!(j.starts_with('{') && j.ends_with('}'));
    let parsed = match parse(j) {
        Ok(v) => v,
        Err(e) => panic!("{}", e),
    };
    assert_eq!(parsed.get_text("title"), "x");
}

#[test]
fn extract_json_skips_braces_in_strings() {
    let s = "{\"a\":\"}}}\",\"b\":1}";
    assert_eq!(extract_json_object(s).unwrap(), s);
}

#[test]
fn an_object_ends_with_its_own_brace() {
    assert_eq!(extract_json_object("a {\"x\":{\"y\":1}} {\"z\":2}"), Some("{\"x\":{\"y\":1}}"));
    assert_eq!(extract_json_object("{\"a\":\"\\\"}\"} tail"), Some("{\"a\":\"\\\"}\"}"));
    assert_eq!(extract_json_object("no object"), None);
    assert_eq!(extract_json_object("{ never closed"), None);
    assert_eq!(summary_json("{}"), Ok("{}"));
    assert_eq!(summary_json("none"), Err("LLM did not return a JSON object".to_string()));
    assert_eq!(summary_error("c", "{}"), "failed to parse summary JSON: c; raw: {}");
}

#[test]
fn replies_end_where_they_are_done() {
    let text = |t: &str| LlmStreamEvent::TextDelta(t.to_string());
    let reply = collect_reply(vec![
        text("a"),
        LlmStreamEvent::ThinkingDelta("not shown".to_string()),
        text("b"),
        LlmStreamEvent::Done { stop_reason: StopReason::Stop },
        text("late"),
    ]);
    assert_eq!(reply, "ab");
    let mut r = Reply::new();
    assert_eq!(
        r.receive(Err(AgentError::Cancelled)),
        Err("LLM stream error: Cancelled".to_string())
    );
    assert_eq!(r.receive(Ok(text("x"))), Ok(()));
    assert_eq!(r.text, "x");
}

fn llm() -> LlmConfig {
    LlmConfig { api_key: "key".to_string(), ..LlmConfig::default() }
}

#[test]
fn transcripts_are_sent_with_their_instructions() {
    let agent = AgentConfig::default();
    let asked = match correct_transcript("raw", &agent, &llm()) {
        Ok(o) => o,
        Err(e) => panic!("{}", e),
    };
    assert_eq!(asked.provider.name(), "openai_compatible");
    assert_eq!(asked.request.messages.len(), 2);
    assert_eq!(asked.request.messages[0].content.as_deref(), Some(CORRECTION_SYSTEM));
    assert_eq!(
        asked.request.messages[1].content.as_deref(),
        Some("以下是 ASR 原始转写，请按照系统指令进行润色：\n\n```\nraw\n```")
    );
    assert_eq!(asked.request.max_tokens, Some(4096));
    match summarise_transcript("raw", &agent, &llm()) {
        Ok(o) => assert_eq!(o.request.max_tokens, Some(2048)),
        Err(e) => panic!("{}", e),
    }
    let own = AgentConfig {
        provider_type: "anthropic".to_string(),
        provider_model: "mine".to_string(),
        ..AgentConfig::default()
    };
    let resolved = resolve(&own, &llm());
    assert_eq!(resolved.provider_type, "anthropic");
    assert_eq!(resolved.model, "mine");
    assert_eq!(resolved.base_url, "https://api.openai.com/v1");
}

// ---------------------------------------------------------------------------
// The transcript
// ---------------------------------------------------------------------------

#[test]
fn accumulator_appends_text_and_timestamps() {
    let mut acc = SegmentAccumulator::new();
    acc.push(0, 1000, "hello");
    acc.push(2000, 3000, "world");
    assert_eq!(acc.full_text, "hello world");
    assert_eq!(acc.segments.len(), 2);
    assert_eq!(acc.segments[0].start_ms, 0);
    assert_eq!(acc.segments[0].end_ms, 1000);
    assert_eq!(acc.segments[1].start_ms, 2000);
    assert_eq!(acc.segments[1].end_ms, 3000);
}

#[test]
fn accumulator_skips_empty_text() {
    let mut acc = SegmentAccumulator::new();
    acc.push(0, 1000, "");
    assert_eq!(acc.full_text, "");
    assert!(acc.segments.is_empty());
}

#[test]
fn a_segment_that_failed_is_left_out() {
    let mut acc = SegmentAccumulator::new();
    assert_eq!(acc.segment_recognised(0, 10, Ok("a".to_string())), Some("a".to_string()));
    assert_eq!(acc.segment_recognised(10, 20, Err("noise".to_string())), None);
    assert_eq!(acc.segment_recognised(20, 30, Ok("b".to_string())), Some("a b".to_string()));
    let result = acc.finish();
    let texts: Vec<&str> = result.segments.iter().map(|s| s.text.as_str()).collect();
    assert_eq!(texts.join(" "), result.full_text);
}

#[test]
fn the_last_chunk_is_filled_up() {
    let chunks = resample_chunks(&vec![1u8; RESAMPLE_CHUNK + 1], 0);
    assert_eq!(chunks.len(), 2);
    assert!(chunks.iter().all(|c| c.len() == RESAMPLE_CHUNK));
    assert_eq!(chunks[1][0], 1);
    assert_eq!(chunks[1][1], 0);
    assert_eq!(resample_chunks(&Vec::<u8>::new(), 0).len(), 0);
}

// ---------------------------------------------------------------------------
// A meeting
// ---------------------------------------------------------------------------

fn config(provider: AsrProviderKind) -> AppConfig {
    let mut c = AppConfig::default();
    c.asr.provider = provider;
    c.input_device = "mic".to_string();
    c
}

fn probe() -> EngineProbe {
    EngineProbe {
        vad_size: Some(640_000),
        zipformer_missing: vec![],
        current_name: "sensevoice_onnx".to_string(),
    }
}

fn begin() -> ActiveMeeting {
    let plan = start_meeting(
        &config(AsrProviderKind::SenseVoiceOnnx),
        &probe(),
        MeetingAudioConfig { include_system_audio: true },
        "m1".to_string(),
        "2025-01-02T03:04:05Z".to_string(),
        "app",
    );
    match plan {
        Ok(p) => {
            assert!(matches!(p.engine, MeetingEngine::SenseVoice));
            assert_eq!(p.device_id, "mic");
            p.meeting
        }
        Err(e) => panic!("{}", e),
    }
}

#[test]
fn meetings_need_an_engine() {
    let start = |provider: AsrProviderKind, p: &EngineProbe| {
        start_meeting(
            &config(provider),
            p,
            MeetingAudioConfig::default(),
            "m".to_string(),
            "t".to_string(),
            "app",
        )
        .is_ok()
    };
    assert!(matches!(
        engine_for_meeting(&config(AsrProviderKind::Volcengine)),
        MeetingEngine::Unsupported
    ));
    assert!(!start(AsrProviderKind::Volcengine, &probe()));
    assert!(!start(
        AsrProviderKind::SenseVoiceOnnx,
        &EngineProbe { vad_size: None, ..probe() }
    ));
    assert!(!start(
        AsrProviderKind::ZipformerStreaming,
        &EngineProbe { zipformer_missing: vec!["tokens.txt".to_string()], ..probe() }
    ));
}

#[test]
fn meeting_ids_differ() {
    assert_eq!(meeting_id_at("20250102T030405", 7), "meeting-20250102T030405-0007");
    assert_eq!(meeting_id_at("t", 12345), "meeting-t-12345");
    assert_ne!(meeting_id_at("t", 1), meeting_id_at("t", 10));
    let id = next_meeting_id(3);
    assert!(id.starts_with("meeting-2"));
    assert!(id.ends_with("-0003"));
    assert_eq!(id.len(), "meeting-20250102T030405-0003".len());
    assert!(meeting_draft_audio_path("app", "m1").ends_with("m1.wav"));
}

#[test]
fn silences_are_counted_in_samples() {
    let mut c = AppConfig::default();
    c.asr.sensevoice.vad_min_silence_ms = 0;
    assert_eq!(vad_min_silence_ms(&c), 1500);
    c.asr.sensevoice.vad_min_silence_ms = 700;
    assert_eq!(vad_min_silence_ms(&c), 700);
    assert_eq!(ms_to_samples(700), 11_200);
}

fn saved(op: Option<StorageOp>) -> MeetingRecord {
    match op {
        Some(StorageOp::SaveMeeting(r)) => r,
        _ => panic!("a record is to be saved"),
    }
}

#[test]
fn drafts_are_spaced() {
    let mut store = StorageService::new("app");
    let mut m = begin();
    let event = m.recording(&mut store, 0);
    assert_eq!(event.state, "recording");
    assert!(matches!(saved(store.next_op()).status, MeetingStatus::Recording));
    let partial = m.segment_done(&mut store, "one", 10_000, 10_000);
    assert_eq!(partial.text, "one");
    assert_eq!(saved(store.next_op()).raw_text, "one");
    m.segment_done(&mut store, "one two", 11_499, 11_499);
    assert!(store.next_op().is_none());
    m.segment_done(&mut store, "one two three", 11_500, 11_500);
    let draft = saved(store.next_op());
    assert_eq!(draft.raw_text, "one two three");
    assert_eq!(draft.segments.len(), 1);
    assert_eq!(draft.segments[0].end_ms, 11_500);
}

#[test]
fn the_record_keeps_what_was_said() {
    let mut store = StorageService::new("app");
    let mut m = begin();
    m.segment_done(&mut store, "heard so far", 1, 1);
    let record = m.stop(None, 5_000, "end".to_string());
    assert_eq!(record.raw_text, "heard so far");
    assert_eq!(record.segments.len(), 1);
    assert!(matches!(record.status, MeetingStatus::RawOnly));
    assert_eq!(record.ended_at.as_deref(), Some("end"));

    let result = PipelineResult {
        full_text: "a b".to_string(),
        segments: vec![
            TranscriptSegment { start_ms: 0, end_ms: 1, speaker: None, text: "a".to_string() },
            TranscriptSegment { start_ms: 2, end_ms: 3, speaker: None, text: "b".to_string() },
        ],
    };
    let record = begin().stop(Some(result), 5_000, "end".to_string());
    assert_eq!(record.raw_text, "a b");
    assert_eq!(record.segments.len(), 2);
    assert_eq!(record.segments[1].start_ms, 2);
}

#[test]
fn one_meeting_at_a_time() {
    let mut state = init_meeting_state();
    assert!(may_start(&state).is_ok());
    assert_eq!(
        meeting_started(&mut state, Err("no".to_string())).err(),
        Some("start meeting failed: no".to_string())
    );
    match meeting_started(&mut state, Ok(begin())) {
        Ok(info) => {
            assert_eq!(info.session_id, "m1");
            assert!(info.include_system_audio);
        }
        Err(e) => panic!("{}", e),
    }
    assert_eq!(may_start(&state), Err("a meeting is already in progress".to_string()));
    assert!(get_active_meeting(&state).is_some());
    match stop_meeting(&mut state) {
        Ok((m, event)) => {
            assert_eq!(event.state, "finalizing");
            let mut store = StorageService::new("app");
            let record = m.stop(None, 1, "end".to_string());
            let (status, done) = meeting_stopped(&mut store, &record);
            assert_eq!(status.state, "idle");
            assert_eq!(done.id, "m1");
            assert_eq!(saved(store.next_op()).id, "m1");
        }
        Err(e) => panic!("{}", e),
    }
    assert_eq!(stop_meeting(&mut state).err(), Some("no meeting in progress".to_string()));
    assert!(get_active_meeting(&state).is_none());
}

fn spoken(text: &str) -> MeetingRecord {
    let result = PipelineResult { full_text: text.to_string(), segments: vec![] };
    begin().stop(Some(result), 9_000, "end".to_string())
}

#[test]
fn polishing_keeps_the_transcript() {
    let mut store = StorageService::new("app");
    let (mut polish, event) = match PolishMeeting::start("m1", Some(spoken("raw")), &mut store) {
        Ok(v) => v,
        Err(e) => panic!("{}", e),
    };
    assert_eq!(event.stage, "correcting");
    assert!(matches!(saved(store.next_op()).status, MeetingStatus::Finalizing));
    match polish.corrected(Ok("better".to_string()), &mut store) {
        Ok((done, next)) => {
            assert_eq!(done.stage, "correction_done");
            assert_eq!(next.stage, "summarising");
        }
        Err(f) => panic!("{}", f.message),
    }
    let record = saved(store.next_op());
    assert_eq!(record.raw_text, "raw");
    assert_eq!(record.corrected_text.as_deref(), Some("better"));
    let summary = MeetingSummary {
        title: "Plan".to_string(),
        key_points: vec!["k".to_string()],
        todos: vec![],
        decisions: vec![],
    };
    match polish.summarised(Ok(summary), &mut store) {
        Ok(event) => assert_eq!(event.stage, "done"),
        Err(f) => panic!("{}", f.message),
    }
    match store.next_op() {
        Some(StorageOp::AddHistory(item)) => {
            assert_eq!(item.id, "history-meeting-m1");
            assert!(item.text.contains("Plan"));
            assert_eq!(item.duration_ms, 9_000);
        }
        _ => panic!("the meeting goes into the history"),
    }
    let record = saved(store.next_op());
    assert!(matches!(record.status, MeetingStatus::Summarized));
    assert_eq!(record.raw_text, "raw");
}

#[test]
fn polishing_can_fail() {
    let mut store = StorageService::new("app");
    assert_eq!(
        PolishMeeting::start("m9", None, &mut store).err(),
        Some("meeting m9 not found".to_string())
    );
    assert_eq!(
        PolishMeeting::start("m1", Some(spoken("  ")), &mut store).err(),
        Some("meeting has no transcript to polish".to_string())
    );
    let (mut polish, _) = match PolishMeeting::start("m1", Some(spoken("raw")), &mut store) {
        Ok(v) => v,
        Err(e) => panic!("{}", e),
    };
    saved(store.next_op());
    match polish.corrected(Err("offline".to_string()), &mut store) {
        Ok(_) => panic!("correction failed"),
        Err(f) => {
            assert_eq!(f.message, "correction failed: offline");
            assert!(f.event.error.is_some());
        }
    }
    let record = saved(store.next_op());
    assert_eq!(record.raw_text, "raw");
    assert_eq!(record.last_error.as_deref(), Some("correction failed: offline"));
}

#[test]
fn dates_are_shortened() {
    let short = format_short_date("2025-01-02T03:04:05Z");
    assert!(short.contains("2025-01-02"));
    assert!(!short.contains('T'));
}

// ---------------------------------------------------------------------------
// Sound
// ---------------------------------------------------------------------------

#[test]
fn devices_of_one_name_are_told_apart() {
    let names: Vec<String> = ["mic", "line", "mic"].iter().map(|s| s.to_string()).collect();
    assert_eq!(find_device(&names, "line"), Ok(1));
    assert_eq!(find_device(&names, "mic"), Ok(0));
    assert_eq!(find_device(&names, "none"), Err("input device not found: none".to_string()));
    assert!(level_is_due(116, 100));
    assert!(!level_is_due(115, 100));
    assert!(!level_is_due(90, 100));
}

#[test]
fn samples_are_grouped_by_channel() {
    assert_eq!(frames(&vec![1, 2, 3, 4], 2), vec![vec![1, 2], vec![3, 4]]);
    assert_eq!(pcm16_frames(&vec![1, 0, 255, 255, 9], 1), vec![vec![1], vec![-1]]);
    assert_eq!(pcm16_frames(&vec![0, 128, 255, 127], 2), vec![vec![i16::MIN, i16::MAX]]);
    assert_eq!(
        float32_frames(&1.5f32.to_le_bytes().to_vec(), 1),
        vec![vec![1.5f32.to_bits()]]
    );
}

#[test]
fn packets_are_taken_and_released() {
    assert!(matches!(sample_format(16), SampleFormat::Pcm16));
    assert!(matches!(sample_format(32), SampleFormat::Float32));
    assert!(matches!(sample_format(24), SampleFormat::Other));
    assert_eq!(packet_bytes(480, 2, 32), 3_840);
    assert!(matches!(packet_step(PacketState::Empty), PacketStep::Wait));
    assert!(matches!(
        packet_step(PacketState::Ready { has_data: true, num_frames: 4 }),
        PacketStep::Take(4)
    ));
    assert!(matches!(
        packet_step(PacketState::Ready { has_data: false, num_frames: 4 }),
        PacketStep::Release(4)
    ));
    assert!(LoopbackCapture::start(0, 2).is_err());
    match LoopbackCapture::start(48_000, 2) {
        Ok(mut c) => {
            assert_eq!((c.sample_rate(), c.channels()), (48_000, 2));
            c.stop();
            assert_eq!(c.sample_rate(), 48_000);
        }
        Err(e) => panic!("{}", e),
    }
}

// ---------------------------------------------------------------------------
// Settings
// ---------------------------------------------------------------------------

#[test]
fn an_engine_must_be_configured() {
    let c = AppConfig::default();
    assert!(!get_asr_status(&c, true, true).configured);
    let mut c = config(AsrProviderKind::SenseVoiceOnnx);
    assert!(!get_asr_status(&c, true, false).configured);
    assert!(model_downloaded(&mut c, "models".to_string()));
    assert!(get_asr_status(&c, true, false).configured);
    assert!(!get_asr_status(&c, false, true).configured);
    assert_eq!(download_target(Some("d".to_string()), "app"), "d");
    assert!(download_target(None, "app").ends_with("SenseVoiceSmall-onnx"));
    switch_input_device(&mut c, "line".to_string());
    assert_eq!(c.input_device, "line");
}

#[test]
fn saving_tells_whether_the_engine_changes() {
    let mut listener = InputListener::new();
    let a = AppConfig::default();
    let mut b = AppConfig::default();
    b.trigger_mouse = false;
    assert!(!save_config(&a, &b, &mut listener));
    assert!(!listener.enable_mouse);
    b.proxy.enabled = true;
    assert!(save_config(&a, &b, &mut listener));
    let mut c = AppConfig::default();
    c.asr.zipformer.model_dir = "elsewhere".to_string();
    assert!(save_config(&a, &c, &mut listener));
    let mut in_force: Vec<SafetyRule> = vec![];
    let rule = SafetyRule {
        tool: "bash".to_string(),
        action: "deny".to_string(),
        command_pattern: None,
        path_scope: None,
    };
    let before = b.agent_config.safety_rules.len();
    add_safety_rule(&mut in_force, &mut b, rule);
    assert_eq!(in_force.len(), 1);
    assert_eq!(b.agent_config.safety_rules.len(), before + 1);
}
