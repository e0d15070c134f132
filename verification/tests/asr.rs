use voxclaw::asr::sensevoice::decode::{
    collapse_excessive_repeats, ctc_greedy, TokenVocab, VocabError,
};
use voxclaw::asr::sensevoice::download::{status_error, DownloadEvent, DownloadStep, ModelDownload};
use voxclaw::asr::sensevoice::fbank::{
    apply_lfr, cmvn_words, frame_count, parse_cmvn, CmvnToken, FEAT_DIM, LFR_M, NUM_MEL,
};
use voxclaw::asr::sensevoice::model as sensevoice_model;
use voxclaw::asr::sensevoice::provider as sensevoice;
use voxclaw::asr::sensevoice::vad::{
    SileroContext, VadEndpointer, VadEndpointerConfig, VAD_CHUNK, VAD_CONTEXT,
};
use voxclaw::asr::zipformer::download as zipformer_download;
use voxclaw::asr::zipformer::model as zipformer_model;
use voxclaw::asr::zipformer::provider as zipformer;
use voxclaw::asr::zipformer::provider::Collector;
use voxclaw::asr::{
    engine_load_error, replace_step, AsrSession, LockOutcome, ReplaceStep, StreamingSession,
    REPLACE_ATTEMPTS,
};
use voxclaw::json::parse;

// ---------------------------------------------------------------------------
// Decoding
// ---------------------------------------------------------------------------

#[test]
fn collapse_folds_excessive_cjk_repeats() {
    // 5x"早" → folded to 3 (max allowed for CJK).
    assert_eq!(collapse_excessive_repeats("吃早早早早早饭"), "吃早早早饭");
}

#[test]
fn collapse_keeps_legitimate_triple() {
    assert_eq!(collapse_excessive_repeats("哈哈哈"), "哈哈哈");
}

#[test]
fn collapse_keeps_normal_text() {
    assert_eq!(collapse_excessive_repeats("吃早饭去玩"), "吃早饭去玩");
}

#[test]
fn collapse_keeps_distinct_adjacent_chars() {
    // "早早" appearing as a real word stays (run of 2).
    assert_eq!(collapse_excessive_repeats("早早起"), "早早起");
}

#[test]
fn collapsing_settles() {
    let once = collapse_excessive_repeats("soooo 好好好好 gooood");
    assert_eq!(once, "soo 好好好 good");
    assert_eq!(collapse_excessive_repeats(&once), once);
    assert_eq!(collapse_excessive_repeats(""), "");
}

#[test]
fn blanks_and_repeats_are_dropped() {
    assert_eq!(ctc_greedy(&vec![0, 5, 5, 0, 5, 7, 7, 0], 0), vec![5, 5, 7]);
    assert_eq!(ctc_greedy(&vec![0, 0], 0), Vec::<u32>::new());
    assert_eq!(ctc_greedy(&vec![], 0), Vec::<u32>::new());
}

fn vocab() -> TokenVocab {
    let table = r#"["<blank>", "<|zh|>", "▁hello", ["▁world", -1.5], "你", "<s>", ""]"#;
    match TokenVocab::parse(table) {
        Ok(v) => v,
        Err(e) => panic!("{}", e),
    }
}

#[test]
fn ids_become_text() {
    let v = vocab();
    assert_eq!(v.len(), 7);
    assert_eq!(v.token_id("你"), Some(4));
    assert_eq!(v.token_id("missing"), None);
    assert_eq!(v.decode_ids(&vec![1, 2, 3, 0, 5, 6, 99, 4]), "hello world你");
    assert_eq!(v.decode_ids(&vec![4, 4, 4, 4, 4]), "你你你");
}

#[test]
fn token_tables_must_have_their_shape() {
    let read = |s: &str| match parse(s) {
        Ok(v) => TokenVocab::from_json(&v),
        Err(e) => panic!("{}", e),
    };
    assert!(matches!(read("{}"), Err(VocabError::NotAnArray)));
    assert!(matches!(read("[[1, 2]]"), Err(VocabError::PairWithoutText)));
    assert!(matches!(read("[1]"), Err(VocabError::UnexpectedEntry)));
    assert!(matches!(read("[[]]"), Err(VocabError::UnexpectedEntry)));
    assert_eq!(VocabError::NotAnArray.message(), "tokens.json must be a JSON array");
    assert_eq!(VocabError::PairWithoutText.message(), "tokens.json: pair[0] not a string");
    assert_eq!(VocabError::UnexpectedEntry.message(), "tokens.json: unexpected entry shape");
    match TokenVocab::parse("[") {
        Ok(_) => panic!("the table cannot be read"),
        Err(e) => {
            let why = serde_json::from_str::<serde_json::Value>("[").unwrap_err();
            assert_eq!(e, format!("parse tokens.json failed: {}", why));
        }
    }
}

// ---------------------------------------------------------------------------
// Features
// ---------------------------------------------------------------------------

#[test]
fn apply_lfr_matches_upstream_padding() {
    let mut frames: Vec<Vec<f32>> = Vec::new();
    for value in 1..=8 {
        let mut frame = vec![0.0f32; NUM_MEL];
        frame[0] = value as f32;
        frames.push(frame);
    }

    let lfr = apply_lfr(&frames);
    assert_eq!(lfr.len(), FEAT_DIM * 2);

    let first: Vec<f32> = (0..LFR_M).map(|i| lfr[i * NUM_MEL]).collect();
    assert_eq!(first, vec![1.0, 1.0, 1.0, 1.0, 2.0, 3.0, 4.0]);

    let second_base = FEAT_DIM;
    let second: Vec<f32> = (0..LFR_M)
        .map(|i| lfr[second_base + i * NUM_MEL])
        .collect();
    assert_eq!(second, vec![4.0, 5.0, 6.0, 7.0, 8.0, 8.0, 8.0]);
}

#[test]
fn frames_overlap() {
    assert_eq!(frame_count(0), 0);
    assert_eq!(frame_count(399), 0);
    assert_eq!(frame_count(400), 1);
    assert_eq!(frame_count(559), 1);
    assert_eq!(frame_count(560), 2);
    assert_eq!(frame_count(16_000), 98);
    assert_eq!(apply_lfr(&Vec::<Vec<i32>>::new()).len(), 0);
}

fn tokens(source: &str) -> Vec<CmvnToken<i32>> {
    cmvn_words(source)
        .into_iter()
        .map(|t| match t.parse::<i32>() {
            Ok(n) => CmvnToken::Number(n),
            Err(_) => CmvnToken::Word(t),
        })
        .collect()
}

#[test]
fn words_stand_between_white_space() {
    let words = |s: &str| cmvn_words(s).join("|");
    assert_eq!(words(" <AddShift>\t560\r\n  [ -1.5 2 ]\n"), "<AddShift>|560|[|-1.5|2|]");
    assert_eq!(words("one"), "one");
    assert_eq!(words("a\u{3000}b"), "a|b");
    assert!(cmvn_words(" \n").is_empty());
    assert!(cmvn_words("").is_empty());
}

#[test]
fn normalisation_values_are_read() {
    let read = |s: &str| parse_cmvn(&tokens(s));
    assert_eq!(
        read("<Nnet> 7 <AddShift> 2 2 <LearnRateCoef> 0 [ 1 2 ] <Rescale> 2 2 [ 3 4 ] </Nnet>"),
        Ok((vec![1, 2], vec![3, 4]))
    );
    assert_eq!(read("<Rescale> [ 1 ]"), Err("am.mvn missing AddShift".to_string()));
    assert_eq!(read("<AddShift> [ 1 ]"), Err("am.mvn missing Rescale".to_string()));
    assert_eq!(
        read("<AddShift> [ 1 2 ] <Rescale> [ 3 ]"),
        Err("am.mvn shift/rescale length mismatch: 2 vs 1".to_string())
    );
}

// ---------------------------------------------------------------------------
// Speech detection
// ---------------------------------------------------------------------------

/// An endpointer with tiny limits: one silent chunk ends a segment, nothing is padded, and
/// a segment holds at most four chunks.
fn endpointer() -> VadEndpointer<f32> {
    VadEndpointer::new(VadEndpointerConfig {
        min_silence_samples: 512,
        speech_pad_samples: 0,
        max_segment_samples: 2_048,
    })
}

fn speech(probs: &[f32]) -> Vec<bool> {
    probs.iter().map(|p| *p >= 0.5).collect()
}

#[test]
fn pure_silence_produces_no_segments() {
    let mut ep = endpointer();
    let segs = ep.feed(&vec![0.0; 2048], &speech(&[0.1, 0.1, 0.1, 0.1]));
    assert!(segs.is_empty(), "no speech should yield no segments");
    assert!(ep.flush().is_none());
}

#[test]
fn speech_then_silence_yields_one_segment() {
    // probs: speech, speech, silence, silence (4 chunks = 2048 samples)
    let mut ep = endpointer();
    let mut all = ep.feed(&vec![0.0; 2048], &speech(&[0.9, 0.9, 0.1, 0.1]));
    all.extend(ep.flush());
    assert_eq!(all.len(), 1);
    // start_sample should be 0 (no pad).
    assert_eq!(all[0].start_sample, 0);
    assert!(!all[0].samples.is_empty());
}

#[test]
fn continuous_speech_forces_split_at_max_length() {
    // 6 chunks all speech, max_segment = 2048 (4 chunks) → forced split(s).
    let mut ep = endpointer();
    let mut all = ep.feed(&vec![0.0; 6 * 512], &speech(&[0.9; 6]));
    all.extend(ep.flush());
    assert!(all.len() >= 2, "should force-split long speech, got {} segments", all.len());
    assert!(all.iter().all(|s| s.samples.len() <= 2_048));
}

#[test]
fn flush_emits_in_progress_segment() {
    // speech, speech, then flush (no trailing silence).
    let mut ep = endpointer();
    let segs = ep.feed(&vec![0.0; 1024], &speech(&[0.9, 0.9]));
    assert!(segs.is_empty(), "no split expected mid-speech");
    match ep.flush() {
        Some(s) => assert!(!s.samples.is_empty()),
        None => panic!("a segment is in progress"),
    }
}

#[test]
fn a_segment_is_part_of_the_stream() {
    let mut ep: VadEndpointer<u32> = VadEndpointer::new(VadEndpointerConfig {
        min_silence_samples: 512,
        speech_pad_samples: 0,
        max_segment_samples: 4_096,
    });
    let stream: Vec<u32> = (0..5 * 512).collect();
    let segs = ep.feed(&stream, &vec![false, true, true, false, false]);
    assert_eq!(segs.len(), 1);
    let (from, to) = (segs[0].start_sample as usize, segs[0].end_sample as usize);
    assert_eq!(from, 512);
    assert_eq!(segs[0].samples, stream[from..to].to_vec());
}

/// Half a chunk is kept from before a segment.
fn padded() -> VadEndpointer<u32> {
    VadEndpointer::new(VadEndpointerConfig {
        min_silence_samples: 512,
        speech_pad_samples: 256,
        max_segment_samples: 1_024,
    })
}

#[test]
fn the_padding_ends_where_the_speech_begins() {
    let mut ep = padded();
    let stream: Vec<u32> = (0..8 * 512).collect();
    let flags = vec![false, true, false, true, true, true, false, false];
    let segs = ep.feed(&stream, &flags);
    let places: Vec<(u64, u64)> = segs.iter().map(|s| (s.start_sample, s.end_sample)).collect();
    assert_eq!(places, vec![(256, 1_536), (1_536, 2_560), (2_560, 3_584)]);
    for s in &segs {
        assert_eq!(s.samples, stream[s.start_sample as usize..s.end_sample as usize].to_vec());
    }
}

#[test]
fn cutting_up_the_sound_makes_no_difference() {
    let stream: Vec<u32> = (0..8 * 512).collect();
    let flags = vec![false, true, false, true, true, true, false, false];
    let mut at_once = padded();
    let whole = at_once.feed(&stream, &flags);
    let mut in_pieces = padded();
    let mut parts = vec![];
    let mut judged = 0usize;
    for piece in stream.chunks(700) {
        let piece = piece.to_vec();
        let chunks = in_pieces.chunks_with(&piece);
        for (i, chunk) in chunks.iter().enumerate() {
            let from = (judged + i) * 512;
            assert_eq!(*chunk, stream[from..from + 512].to_vec());
        }
        let now = flags[judged..judged + chunks.len()].to_vec();
        judged += chunks.len();
        parts.extend(in_pieces.feed(&piece, &now));
    }
    assert_eq!(judged, 8);
    assert_eq!(parts.len(), whole.len());
    for (a, b) in parts.iter().zip(whole.iter()) {
        assert_eq!((a.start_sample, a.end_sample), (b.start_sample, b.end_sample));
        assert_eq!(a.samples, b.samples);
    }
}

#[test]
fn chunks_wait_until_they_are_full() {
    let mut ep = endpointer();
    assert_eq!(ep.chunks_with(&vec![0.0; 500]).len(), 0);
    assert!(ep.feed(&vec![0.0; 500], &vec![]).is_empty());
    let chunks = ep.chunks_with(&vec![1.0; 12]);
    assert_eq!(chunks.len(), 1);
    assert_eq!(chunks[0].len(), VAD_CHUNK);
    assert_eq!(chunks[0][511], 1.0);
}

#[test]
fn long_stream_does_not_hang() {
    // Pure silence: no segments, but every chunk is still consumed.
    let mut ep: VadEndpointer<f32> = VadEndpointer::new(VadEndpointerConfig::default());
    // 30 minutes @ 16 kHz = 28.8M samples, fed in 4096-sample chunks.
    let total = 28_800_000usize;
    let mut produced = 0usize;
    let chunk = vec![0.0f32; 4096];
    let silence = vec![false; 8];
    let mut fed = 0usize;
    while fed < total {
        let n = (total - fed).min(chunk.len());
        let part = chunk[..n].to_vec();
        let flags = silence[..n / 512].to_vec();
        produced += ep.feed(&part, &flags).len();
        fed += n;
    }
    if ep.flush().is_some() {
        produced += 1;
    }
    assert_eq!(produced, 0);
}

#[test]
fn the_detector_sees_the_end_of_the_last_chunk() {
    let mut context = SileroContext::new(0u32);
    let first: Vec<u32> = (1..=512).collect();
    match context.input_for(&first) {
        Ok(input) => {
            assert_eq!(input.len(), VAD_CONTEXT + VAD_CHUNK);
            assert_eq!(input[0], 0);
            assert_eq!(input[VAD_CONTEXT], 1);
        }
        Err(e) => panic!("{}", e),
    }
    match context.input_for(&first) {
        Ok(input) => assert_eq!(input[0], 449),
        Err(e) => panic!("{}", e),
    }
    assert!(context.input_for(&vec![1]).is_err());
}

// ---------------------------------------------------------------------------
// Models
// ---------------------------------------------------------------------------

#[test]
fn the_model_must_have_its_size() {
    let exact = vec![Some(241_216_270), Some(352_064), Some(1_855), Some(11_203), Some(56)];
    assert!(sensevoice_model::is_present(true, &exact));
    assert!(!sensevoice_model::is_present(false, &exact));
    let mut near = exact.clone();
    near[0] = Some(241_216_270 - 2_412_162);
    near[4] = Some(60);
    assert!(sensevoice_model::is_present(true, &near));
    near[0] = Some(241_216_270 - 2_412_163);
    assert!(!sensevoice_model::is_present(true, &near));
    let mut missing = exact.clone();
    missing[3] = None;
    assert!(!sensevoice_model::is_present(true, &missing));
    assert_eq!(sensevoice_model::required_name(3), "am.mvn");
    assert_eq!(sensevoice_model::required_size(4), 56);
    assert!(sensevoice_model::is_vad_present(Some(100_001)));
    assert!(!sensevoice_model::is_vad_present(Some(100_000)));
    assert!(!sensevoice_model::is_vad_present(None));
    assert!(sensevoice_model::vad_model_file("m").ends_with("silero_vad.onnx"));
    assert!(sensevoice_model::tokens_file("m").ends_with("tokens.json"));
    assert!(sensevoice_model::model_file("m").ends_with("model_quant.onnx"));
}

#[test]
fn files_that_are_there_are_not_fetched() {
    let (mut download, started, step) = ModelDownload::start("models");
    assert!(matches!(started, DownloadEvent::Started { total_files: 5 }));
    assert!(matches!(step, DownloadStep::Look { .. }));
    let (event, step) = download.looked(Some(241_216_270));
    assert!(matches!(event, Some(DownloadEvent::File { index: 1, total: 5, .. })));
    assert!(matches!(step, DownloadStep::Look { .. }));
    let (event, step) = download.looked(Some(1));
    assert!(event.is_none());
    let job = match step {
        DownloadStep::Fetch(job) => job,
        _ => panic!("the file is too short"),
    };
    assert_eq!(
        job.url,
        "https://www.modelscope.cn/models/iic/SenseVoiceSmall-onnx/resolve/master/tokens.json"
    );
    assert!(job.part.ends_with(".part"));
    let report = download.report(7, Some(9));
    assert!(matches!(report, DownloadEvent::File { name, downloaded: 7, size: Some(9), .. }
        if name == "tokens.json"));
    let (_, step) = download.fetched(Ok((352_064, Some(352_064))));
    assert!(matches!(step, DownloadStep::Look { .. }));
    let (event, step) = download.looked(None);
    assert!(event.is_none());
    assert!(matches!(step, DownloadStep::Fetch(_)));
    let (event, step) = download.fetched(Err(status_error("config.yaml", "404 Not Found")));
    assert!(matches!(event, DownloadEvent::Failed { message }
        if message == "download config.yaml failed: HTTP 404 Not Found"));
    assert!(matches!(step, DownloadStep::Failed));
}

#[test]
fn languages_have_control_ids() {
    assert!(sensevoice::language_control_id("zh").is_some());
    assert_ne!(
        sensevoice::language_control_id("zh"),
        sensevoice::language_control_id("en")
    );
    assert!(sensevoice::language_control_id("klingon").is_none());
    assert!(sensevoice::check_setup("m", false, 560, "zh").is_err());
    assert!(sensevoice::check_setup("m", true, 559, "zh").is_err());
    assert!(sensevoice::check_setup("m", true, 560, "klingon").is_err());
    assert_eq!(
        sensevoice::check_setup("m", true, 560, "zh").ok(),
        sensevoice::language_control_id("zh")
    );
    assert!(!sensevoice::needs_resampling(16_000));
    assert!(sensevoice::needs_resampling(48_000));
    assert!(sensevoice::capabilities().offline);
}

#[test]
fn missing_files_lists_all_when_empty() {
    let missing = zipformer_model::missing_files(&vec![], false);
    assert_eq!(missing.len(), 4);
    assert_eq!(missing[0], "encoder*.onnx");
    assert_eq!(missing[3], "tokens.txt");
}

#[test]
fn is_present_false_for_empty_dir() {
    assert!(!zipformer_model::is_present(&vec![], false));
}

#[test]
fn parts_are_found_in_any_case() {
    let names: Vec<String> = ["notes.txt", "ENCODER-int8.ONNX", "decoder.onnx", "joiner.onnx"]
        .iter()
        .map(|s| s.to_string())
        .collect();
    assert!(zipformer_model::is_present(&names, true));
    assert!(!zipformer_model::is_present(&names, false));
    assert_eq!(zipformer_model::missing_files(&names, true).len(), 0);
    match zipformer_model::encoder_file("dir", &names) {
        Some(path) => assert!(path.ends_with("ENCODER-int8.ONNX")),
        None => panic!("the encoder is there"),
    }
    assert!(zipformer_model::joiner_file("dir", &vec!["joiner.bin".to_string()]).is_none());
}

#[test]
fn an_incomplete_archive_fails() {
    let (event, outcome) = zipformer_download::unpacked("d", &vec!["tokens.txt".to_string()]);
    assert!(matches!(event, DownloadEvent::Failed { .. }));
    assert!(outcome.is_err());
    let (event, outcome) = zipformer_download::unpacked("d", &vec![]);
    assert!(matches!(event, DownloadEvent::Finished { dir } if dir == "d"));
    assert_eq!(outcome, Ok("d".to_string()));
    assert!(zipformer_download::target_dir("p").starts_with('p'));
}

// ---------------------------------------------------------------------------
// Sessions
// ---------------------------------------------------------------------------

#[test]
fn utterances_are_collected() {
    let mut c = Collector::new();
    assert_eq!(c.partial(Some(" hel ")), Some("hel".to_string()));
    assert_eq!(c.partial(Some("hel")), None);
    assert_eq!(c.partial(None), None);
    c.advance(500);
    c.endpoint(Some("hello"));
    c.advance(250);
    assert_eq!(c.partial(Some("wor")), Some("hellowor".to_string()));
    c.endpoint(Some("  "));
    c.finish(Some("world"));
    let segments = c.take_segments();
    assert_eq!(segments.len(), 2);
    assert_eq!((segments[0].start_ms, segments[0].end_ms), (0, 500));
    assert_eq!((segments[1].start_ms, segments[1].end_ms), (750, 750));
    assert_eq!(c.finish_and_wait(), Ok("hello world".to_string()));
}

#[test]
fn the_last_utterance_lasts_to_the_end() {
    let mut c = Collector::new();
    c.advance(500);
    c.endpoint(Some("one"));
    c.advance(300);
    c.finish(Some(" two "));
    let segments = c.take_segments();
    assert_eq!((segments[1].start_ms, segments[1].end_ms), (500, 800));
    let texts: Vec<String> = segments.iter().map(|s| s.text.clone()).collect();
    assert_eq!(c.finish_and_wait(), Ok(texts.join(" ")));
}

#[test]
fn a_session_is_finished_once() {
    let mut c = Collector::new();
    c.finish(Some("done"));
    let mut session = StreamingSession::new(c);
    assert_eq!(session.finish_and_wait(), Ok("done".to_string()));
    assert_eq!(session.take_segments().len(), 1);
    assert!(session.finish_and_wait().is_err());
}

#[test]
fn setups_name_what_is_missing() {
    match zipformer::check_setup("", &vec![]) {
        Ok(_) => panic!("no directory was given"),
        Err(e) => {
            assert_eq!(e, "Zipformer 模型目录未设置。请在设置中下载 Zipformer 流式模型。")
        }
    }
    match zipformer::check_setup("d", &vec!["a".to_string(), "b".to_string()]) {
        Ok(_) => panic!("files are missing"),
        Err(e) => assert_eq!(e, "Zipformer 模型文件不完整，缺少: a, b。请在设置中下载模型。"),
    }
    assert!(zipformer::check_setup("d", &vec![]).is_ok());
    assert_eq!(zipformer::name(), "zipformer_streaming");
    assert!(zipformer::capabilities().streaming);
    assert!(engine_load_error("cause").contains("cause"));
}

#[test]
fn replacing_the_engine_is_tried_again() {
    assert!(matches!(replace_step(0, LockOutcome::Acquired), ReplaceStep::Replace));
    assert!(matches!(
        replace_step(REPLACE_ATTEMPTS - 1, LockOutcome::Busy),
        ReplaceStep::RetryAfterMs(200)
    ));
    assert!(matches!(replace_step(REPLACE_ATTEMPTS, LockOutcome::Busy), ReplaceStep::Fail(_)));
    assert!(matches!(
        replace_step(0, LockOutcome::Poisoned("p".to_string())),
        ReplaceStep::Fail(_)
    ));
}
