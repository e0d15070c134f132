//! A meeting from its start to its record.
use vstd::prelude::*;

use crate::asr::sensevoice::model;
use crate::asr::{TranscriptModel, TranscriptSegment};
use crate::storage::{
    AppConfig, AsrProviderKind, MeetingAudioSource, MeetingModel, MeetingRecord, MeetingSegment,
    MeetingSegmentModel, MeetingStatus, StorageOp, StorageService,
};
use crate::{asr, paths, storage, text};

use super::audio::MeetingAudioConfig;
use super::pipeline::PipelineResult;

verus! {

// ---------------------------------------------------------------------------
// The engine
// ---------------------------------------------------------------------------

/// The recognition engine of a meeting.
#[derive(Clone, Copy, Debug, PartialEq, Eq, Structural)]
pub enum MeetingEngine {
    SenseVoice,
    Zipformer,
    /// The engine in use cannot do meetings.
    Unsupported,
}

pub open spec fn engine_of(kind: AsrProviderKind) -> MeetingEngine {
    match kind {
        AsrProviderKind::SenseVoiceOnnx => MeetingEngine::SenseVoice,
        AsrProviderKind::ZipformerStreaming => MeetingEngine::Zipformer,
        AsrProviderKind::Volcengine => MeetingEngine::Unsupported,
    }
}

pub fn engine_for_meeting(config: &AppConfig) -> (r: MeetingEngine)
    ensures
        r == engine_of(config.asr.provider),
{
    match config.asr.provider {
        AsrProviderKind::SenseVoiceOnnx => MeetingEngine::SenseVoice,
        AsrProviderKind::ZipformerStreaming => MeetingEngine::Zipformer,
        AsrProviderKind::Volcengine => MeetingEngine::Unsupported,
    }
}

/// What was found out about the engines.
pub struct EngineProbe {
    /// The size of the file of the model that detects speech, if there is one.
    pub vad_size: Option<u64>,
    /// The files of the streaming model that are missing.
    pub zipformer_missing: Vec<String>,
    /// The name of the engine in use.
    pub current_name: String,
}

/// Why no meeting can be held with these settings, if none can.
pub open spec fn engine_problem(config: AppConfig, probe: EngineProbe) -> Option<Seq<char>> {
    match engine_of(config.asr.provider) {
        MeetingEngine::SenseVoice => if probe.vad_size is Some && probe.vad_size->0 > 100_000 {
            None
        } else {
            Some(
                "VAD 模型未找到（"@ + paths::joined_path(
                    paths::joined_path(config.asr.sensevoice.model_dir@, "vad"@),
                    "silero_vad.onnx"@,
                ) + "）。请先在设置中下载 VAD 模型。"@,
            )
        },
        MeetingEngine::Zipformer => if probe.zipformer_missing@.len() == 0 {
            None
        } else {
            Some(
                "Zipformer 流式模型未找到（"@ + text::joined(
                    text::views(probe.zipformer_missing@),
                    ", "@,
                ) + "）。请先在设置中下载模型。"@,
            )
        },
        MeetingEngine::Unsupported => Some(
            "会议模式需要离线引擎（SenseVoice 或 Zipformer）。当前引擎: "@ + probe.current_name@ + "。"@,
        ),
    }
}

fn check_engine(config: &AppConfig, probe: &EngineProbe) -> (r: Option<String>)
    ensures
        text::opt_text(r) == engine_problem(*config, *probe),
{
    match engine_for_meeting(config) {
        MeetingEngine::SenseVoice => {
            if model::is_vad_present(probe.vad_size) {
                None
            } else {
                let file = model::vad_model_file(config.asr.sensevoice.model_dir.as_str());
                Some(
                    text::concat3(
                        "VAD 模型未找到（",
                        file.as_str(),
                        "）。请先在设置中下载 VAD 模型。",
                    ),
                )
            }
        },
        MeetingEngine::Zipformer => {
            if probe.zipformer_missing.len() == 0 {
                None
            } else {
                let list = text::join(&probe.zipformer_missing, ", ");
                Some(
                    text::concat3(
                        "Zipformer 流式模型未找到（",
                        list.as_str(),
                        "）。请先在设置中下载模型。",
                    ),
                )
            }
        },
        MeetingEngine::Unsupported => Some(
            text::concat3(
                "会议模式需要离线引擎（SenseVoice 或 Zipformer）。当前引擎: ",
                probe.current_name.as_str(),
                "。",
            ),
        ),
    }
}

/// The silence that ends a stretch of speech, in milliseconds.
pub fn vad_min_silence_ms(config: &AppConfig) -> (r: u32)
    ensures
        r == (if config.asr.sensevoice.vad_min_silence_ms > 0 {
            config.asr.sensevoice.vad_min_silence_ms
        } else {
            1500
        }),
{
    let v: u32 = config.asr.sensevoice.vad_min_silence_ms;
    if v > 0 {
        v
    } else {
        1500
    }
}

/// The samples of so many milliseconds, at the rate that the engines work at.
pub fn ms_to_samples(ms: u32) -> (r: u64)
    ensures
        r == ms * 16,
{
    ms as u64 * 16
}

// ---------------------------------------------------------------------------
// Ids and paths
// ---------------------------------------------------------------------------

/// A number with leading zeros, so that it has at least four digits.
pub open spec fn four_digits(n: nat) -> Seq<char> {
    let digits = text::decimal(n);
    if digits.len() < 4 {
        Seq::new((4 - digits.len()) as nat, |i: int| '0') + digits
    } else {
        digits
    }
}

/// The id of the meeting number `n` that began at `ts`.
pub open spec fn meeting_id(ts: Seq<char>, n: nat) -> Seq<char> {
    "meeting-"@ + ts + "-"@ + four_digits(n)
}

/// A moment as it stands in the id of a meeting: digits, with a letter before the time of day,
/// and a sign only where the year has more than four digits.
pub open spec fn is_compact_time(s: Seq<char>) -> bool {
    &&& s.len() >= 15
    &&& s[s.len() - 7] == 'T'
    &&& forall|i: int|
        0 <= i < s.len() ==> ('0' <= #[trigger] s[i] <= '9' || s[i] == 'T' || s[i] == '+')
}

/// `chrono::Utc::now` in the format `%Y%m%dT%H%M%S`. Which moment comes depends on the clock;
/// every one has six digits for the time of day, and eight or more before them for the date. A
/// clock that stands before 1970 makes the outside function panic.
#[verifier::external_body]
fn compact_time() -> (r: String)
    ensures
        is_compact_time(r@),
{
    chrono::Utc::now().format("%Y%m%dT%H%M%S").to_string()
}

/// The moment is one that was read from the clock.
pub closed spec fn is_clock_time(moment: Seq<char>) -> bool {
    exists|t: String| #[trigger] call_ensures(compact_time, (), t) && t@ == moment
}

/// The id of the meeting number `n` that began at `ts`.
pub fn meeting_id_at(ts: &str, n: u64) -> (r: String)
    ensures
        r@ == meeting_id(ts@, n as nat),
{
    let digits = text::to_decimal(n);
    let mut padded = String::new();
    let count: usize = digits.as_str().unicode_len();
    if count < 4 {
        for i in 0..4 - count
            invariant
                padded@ == Seq::new(i as nat, |k: int| '0'),
        {
            padded.push('0');
            assert(padded@ =~= Seq::new((i + 1) as nat, |k: int| '0'));
        }
    }
    padded.append(digits.as_str());
    assert(padded@ =~= four_digits(n as nat));
    let head = text::concat3("meeting-", ts, "-");
    text::concat2(head.as_str(), padded.as_str())
}

/// An id for a meeting that begins now. `seq` counts the meetings.
pub fn next_meeting_id(seq: u64) -> (r: String)
    ensures
        exists|ts: Seq<char>|
            is_clock_time(ts) && is_compact_time(ts) && r@ == #[trigger] meeting_id(ts, seq as nat),
{
    let ts = compact_time();
    meeting_id_at(ts.as_str(), seq)
}

/// The number of a meeting is written with digits alone.
proof fn lemma_four_digits(n: nat)
    ensures
        forall|i: int| 0 <= i < four_digits(n).len() ==> #[trigger] four_digits(n)[i] != '-',
{
    text::lemma_decimal_digits(n);
}

/// Different numbers are written differently.
proof fn lemma_four_digits_injective(m: nat, n: nat)
    requires
        four_digits(m) == four_digits(n),
    ensures
        m == n,
{
    let a = four_digits(m);
    let b = four_digits(n);
    text::lemma_decimal_first(m);
    text::lemma_decimal_first(n);
    let x = text::decimal(m);
    let y = text::decimal(n);
    if x.len() == y.len() {
        assert(x =~= a.skip(a.len() - x.len()));
        assert(y =~= b.skip(b.len() - y.len()));
        text::lemma_decimal_injective(m, n);
    } else if x.len() < y.len() {
        let k = b.len() - y.len();
        assert(b[k] == y[0]);
        assert(a[k] == '0');
    } else {
        let k = a.len() - x.len();
        assert(a[k] == x[0]);
        assert(b[k] == '0');
    }
}

/// Meetings with different numbers have different ids, whenever they begin.
pub proof fn law_meeting_ids_differ(s: Seq<char>, m: nat, t: Seq<char>, n: nat)
    requires
        m != n,
    ensures
        meeting_id(s, m) != meeting_id(t, n),
{
    let a = four_digits(m);
    let b = four_digits(n);
    let x = meeting_id(s, m);
    let y = meeting_id(t, n);
    reveal_strlit("-");
    lemma_four_digits(m);
    lemma_four_digits(n);
    assert(x =~= ("meeting-"@ + s).push('-') + a);
    assert(y =~= ("meeting-"@ + t).push('-') + b);
    assert(x.skip(x.len() - a.len()) =~= a);
    assert(y.skip(y.len() - b.len()) =~= b);
    if x == y {
        if a.len() == b.len() {
            lemma_four_digits_injective(m, n);
        } else if a.len() < b.len() {
            let k = b.len() - a.len() - 1;
            assert(x[x.len() - a.len() - 1] == '-');
            assert(y[y.len() - b.len() + k] == b[k]);
        } else {
            let k = a.len() - b.len() - 1;
            assert(y[y.len() - b.len() - 1] == '-');
            assert(x[x.len() - a.len() + k] == a[k]);
        }
    }
}

/// The file that the sound of the meeting `id` is written to while it goes on.
pub fn meeting_draft_audio_path(app_dir: &str, id: &str) -> (r: String)
    ensures
        r@ == draft_audio(app_dir@, id@),
{
    let meetings = paths::join(app_dir, "meetings");
    let drafts = paths::join(meetings.as_str(), "drafts");
    let file = text::concat2(id, ".wav");
    paths::join(drafts.as_str(), file.as_str())
}

pub open spec fn draft_audio(app_dir: Seq<char>, id: Seq<char>) -> Seq<char> {
    paths::joined_path(
        paths::joined_path(paths::joined_path(app_dir, "meetings"@), "drafts"@),
        id + ".wav"@,
    )
}

// ---------------------------------------------------------------------------
// The meeting
// ---------------------------------------------------------------------------

/// How much time passes between two drafts of the record, in milliseconds.
pub const MEETING_DRAFT_SAVE_INTERVAL_MS: u64 = 1_500;

/// A meeting that is going on.
pub struct ActiveMeeting {
    pub id: String,
    pub started_at_iso: String,
    pub asr_provider_name: String,
    pub audio_source: MeetingAudioSource,
    pub draft_audio_path: Option<String>,
    /// The text so far.
    pub partial_text: String,
    /// When the last draft was saved; zero where none was.
    pub last_draft_save: u64,
}

/// How a meeting is to be recorded and recognised.
pub struct MeetingPlan {
    pub meeting: ActiveMeeting,
    pub engine: MeetingEngine,
    /// The input device; the empty text for the default one.
    pub device_id: String,
}

pub struct MeetingStatusEvent {
    pub state: String,
    pub session_id: Option<String>,
}

pub struct MeetingPartialEvent {
    pub session_id: String,
    pub text: String,
}

pub struct MeetingFinalizedEvent {
    pub id: String,
}

/// What a meeting records.
pub open spec fn source_of(opts: MeetingAudioConfig) -> MeetingAudioSource {
    if opts.include_system_audio {
        MeetingAudioSource::MicAndLoopback
    } else {
        MeetingAudioSource::MicOnly
    }
}

/// Begins a meeting with this id at this time, where the engine in use allows it. The sound
/// goes to a file below `app_dir`.
pub fn start_meeting(
    config: &AppConfig,
    probe: &EngineProbe,
    opts: MeetingAudioConfig,
    id: String,
    started_at_iso: String,
    app_dir: &str,
) -> (r: Result<MeetingPlan, String>)
    ensures
        match engine_problem(*config, *probe) {
            Some(problem) => r matches Err(m) && m@ == problem,
            None => {
                &&& r matches Ok(plan)
                &&& plan.engine == engine_of(config.asr.provider)
                &&& plan.engine != MeetingEngine::Unsupported
                &&& plan.device_id@ == config.input_device@
                &&& plan.meeting.id == id
                &&& plan.meeting.started_at_iso == started_at_iso
                &&& plan.meeting.asr_provider_name@ == probe.current_name@
                &&& plan.meeting.audio_source == source_of(opts)
                &&& text::opt_text(plan.meeting.draft_audio_path) == Some(
                    draft_audio(app_dir@, id@),
                )
                &&& plan.meeting.partial_text@ == Seq::<char>::empty()
                &&& plan.meeting.last_draft_save == 0
            },
        },
{
    match check_engine(config, probe) {
        Some(problem) => Err(problem),
        None => {
            let audio_source = if opts.include_system_audio {
                MeetingAudioSource::MicAndLoopback
            } else {
                MeetingAudioSource::MicOnly
            };
            let draft_audio_path = Some(meeting_draft_audio_path(app_dir, id.as_str()));
            Ok(
                MeetingPlan {
                    meeting: ActiveMeeting {
                        id,
                        started_at_iso,
                        asr_provider_name: probe.current_name.clone(),
                        audio_source,
                        draft_audio_path,
                        partial_text: String::new(),
                        last_draft_save: 0,
                    },
                    engine: engine_for_meeting(config),
                    device_id: config.input_device.clone(),
                },
            )
        },
    }
}

/// One stretch over the whole meeting, where there is any text.
pub open spec fn whole_segment(duration_ms: u64, text: Seq<char>) -> Seq<MeetingSegmentModel> {
    if text::is_blank(text) {
        seq![]
    } else {
        seq![MeetingSegmentModel { start_ms: 0, end_ms: duration_ms, text, speaker: None }]
    }
}

/// The draft of the record of a meeting that has gone on for so long and has this text.
pub open spec fn draft_record(m: ActiveMeeting, duration_ms: u64, text: Seq<char>) -> MeetingModel {
    MeetingModel {
        id: m.id@,
        started_at: m.started_at_iso@,
        ended_at: None,
        duration_ms,
        audio_source: m.audio_source,
        asr_provider: m.asr_provider_name@,
        status: MeetingStatus::Recording,
        segments: whole_segment(duration_ms, text),
        raw_text: text,
        corrected_text: None,
        summary: None,
        last_error: None,
        draft_audio_path: text::opt_text(m.draft_audio_path),
    }
}

/// The stretches of a record.
pub open spec fn recorded_segments(s: Seq<TranscriptModel>) -> Seq<MeetingSegmentModel> {
    s.map_values(
        |x: TranscriptModel|
            MeetingSegmentModel {
                start_ms: x.start_ms,
                end_ms: x.end_ms,
                text: x.text,
                speaker: x.speaker,
            },
    )
}

/// The record of a meeting that has ended.
pub open spec fn final_record(
    m: ActiveMeeting,
    text: Seq<char>,
    segments: Seq<TranscriptModel>,
    duration_ms: u64,
    ended_at: Seq<char>,
) -> MeetingModel {
    MeetingModel {
        ended_at: Some(ended_at),
        status: MeetingStatus::RawOnly,
        segments: if segments.len() > 0 {
            recorded_segments(segments)
        } else {
            whole_segment(duration_ms, text)
        },
        ..draft_record(m, duration_ms, text)
    }
}

/// Whether a draft is due at `now`, after one at `last`.
pub open spec fn draft_is_due(now: u64, last: u64) -> bool {
    last == 0 || now >= last + MEETING_DRAFT_SAVE_INTERVAL_MS
}

fn whole_segments(duration_ms: u64, text: &String) -> (r: Vec<MeetingSegment>)
    ensures
        storage::meeting_segment_views(r@) == whole_segment(duration_ms, text@),
{
    let mut segments: Vec<MeetingSegment> = Vec::new();
    if !text::is_blank_str(text.as_str()) {
        segments.push(
            MeetingSegment { start_ms: 0, end_ms: duration_ms, text: text.clone(), speaker: None },
        );
    }
    assert(storage::meeting_segment_views(segments@) =~= whole_segment(duration_ms, text@));
    segments
}

fn record_segments(found: &Vec<TranscriptSegment>) -> (r: Vec<MeetingSegment>)
    ensures
        storage::meeting_segment_views(r@) == recorded_segments(asr::transcript_views(found@)),
{
    let mut out: Vec<MeetingSegment> = Vec::new();
    for i in 0..found.len()
        invariant
            out@.len() == i,
            forall|k: int|
                0 <= k < i ==> (#[trigger] out@[k])@ == (MeetingSegmentModel {
                    start_ms: found@[k].start_ms,
                    end_ms: found@[k].end_ms,
                    text: found@[k].text@,
                    speaker: text::opt_text(found@[k].speaker),
                }),
    {
        out.push(
            MeetingSegment {
                start_ms: found[i].start_ms,
                end_ms: found[i].end_ms,
                text: found[i].text.clone(),
                speaker: found[i].speaker.clone(),
            },
        );
    }
    assert(storage::meeting_segment_views(out@) =~= recorded_segments(
        asr::transcript_views(found@),
    ));
    out
}

impl ActiveMeeting {
    fn build_meeting_draft_record(&self, duration_ms: u64, raw_text: String) -> (r: MeetingRecord)
        ensures
            r@ == draft_record(*self, duration_ms, raw_text@),
    {
        let segments = whole_segments(duration_ms, &raw_text);
        MeetingRecord {
            id: self.id.clone(),
            started_at: self.started_at_iso.clone(),
            ended_at: None,
            duration_ms,
            audio_source: self.audio_source,
            asr_provider: self.asr_provider_name.clone(),
            status: MeetingStatus::Recording,
            segments,
            raw_text,
            corrected_text: None,
            summary: None,
            last_error: None,
            draft_audio_path: self.draft_audio_path.clone(),
        }
    }

    /// The recording has begun: saves a first draft of the record and gives the report.
    pub fn recording(&self, store: &mut StorageService, elapsed_ms: u64) -> (r: MeetingStatusEvent)
        ensures
            r.state@ == "recording"@,
            text::opt_text(r.session_id) == Some(self.id@),
            final(store).queue@.len() == old(store).queue@.len() + 1,
            final(store).queue@.drop_last() == old(store).queue@,
            final(store).queue@.last() matches StorageOp::SaveMeeting(d) && d@ == draft_record(
                *self,
                elapsed_ms,
                Seq::<char>::empty(),
            ),
            *final(store) == (StorageService { queue: final(store).queue, ..*old(store) }),
    {
        let draft = self.build_meeting_draft_record(elapsed_ms, String::new());
        store.save_meeting(draft);
        assert(store.queue@.drop_last() =~= old(store).queue@);
        MeetingStatusEvent { state: "recording".to_string(), session_id: Some(self.id.clone()) }
    }

    /// Takes the text so far. It is reported, and saved as a draft where one is due at
    /// `now_ms`.
    pub fn segment_done(
        &mut self,
        store: &mut StorageService,
        full_text: &str,
        now_ms: u64,
        elapsed_ms: u64,
    ) -> (r: MeetingPartialEvent)
        ensures
            r.session_id@ == old(self).id@,
            r.text@ == full_text@,
            final(self).partial_text@ == full_text@,
            *final(self) == (ActiveMeeting {
                partial_text: final(self).partial_text,
                last_draft_save: final(self).last_draft_save,
                ..*old(self)
            }),
            if draft_is_due(now_ms, old(self).last_draft_save) {
                &&& final(self).last_draft_save == now_ms
                &&& final(store).queue@.len() == old(store).queue@.len() + 1
                &&& final(store).queue@.drop_last() == old(store).queue@
                &&& final(store).queue@.last() matches StorageOp::SaveMeeting(d) && d@
                    == draft_record(*old(self), elapsed_ms, full_text@)
                &&& *final(store) == (StorageService { queue: final(store).queue, ..*old(store) })
            } else {
                &&& final(self).last_draft_save == old(self).last_draft_save
                &&& *final(store) == *old(store)
            },
    {
        self.partial_text = full_text.to_string();
        let last: u64 = self.last_draft_save;
        let due = last == 0 || (now_ms >= last && now_ms - last >= MEETING_DRAFT_SAVE_INTERVAL_MS);
        if due {
            self.last_draft_save = now_ms;
            let draft = self.build_meeting_draft_record(elapsed_ms, full_text.to_string());
            store.save_meeting(draft);
            assert(store.queue@.drop_last() =~= old(store).queue@);
        }
        MeetingPartialEvent { session_id: self.id.clone(), text: full_text.to_string() }
    }

    /// Ends the meeting: the record of it, from what the recognition came to, or from the
    /// text so far where it came to nothing.
    pub fn stop(self, result: Option<PipelineResult>, duration_ms: u64, ended_at_iso: String) -> (r:
        MeetingRecord)
        ensures
            r@ == (match result {
                Some(p) => final_record(
                    self,
                    p.full_text@,
                    asr::transcript_views(p.segments@),
                    duration_ms,
                    ended_at_iso@,
                ),
                None => final_record(
                    self,
                    self.partial_text@,
                    Seq::<TranscriptModel>::empty(),
                    duration_ms,
                    ended_at_iso@,
                ),
            }),
    {
        let (final_text, found) = match result {
            Some(p) => (p.full_text, p.segments),
            None => (self.partial_text.clone(), Vec::new()),
        };
        let segments = if found.len() > 0 {
            record_segments(&found)
        } else {
            whole_segments(duration_ms, &final_text)
        };
        assert(asr::transcript_views(found@).len() == found@.len());
        let mut record = self.build_meeting_draft_record(duration_ms, final_text);
        record.ended_at = Some(ended_at_iso);
        record.status = MeetingStatus::RawOnly;
        record.segments = segments;
        proof {
            if result is None {
                assert(asr::transcript_views(found@) =~= seq![]);
            }
        }
        record
    }
}

/// Two drafts of a record that follow each other are saved a second and a half apart.
pub proof fn law_drafts_are_spaced(last: u64, now: u64)
    requires
        last > 0,
        draft_is_due(now, last),
    ensures
        now - last >= MEETING_DRAFT_SAVE_INTERVAL_MS,
{
}

/// A record has stretches wherever it has text, and what was recognised is in it as it is.
pub proof fn law_record_keeps_what_was_said(
    m: ActiveMeeting,
    text: Seq<char>,
    segments: Seq<TranscriptModel>,
    duration_ms: u64,
    ended_at: Seq<char>,
)
    ensures
        ({
            let record = final_record(m, text, segments, duration_ms, ended_at);
            &&& record.raw_text == text
            &&& !text::is_blank(text) ==> record.segments.len() > 0
            &&& segments.len() > 0 ==> record.segments.len() == segments.len()
            &&& forall|i: int|
                0 <= i < segments.len() ==> (#[trigger] record.segments[i]).text
                    == segments[i].text
        }),
{
}

/// A meeting is held with an engine that works without the network, where its model is there.
pub proof fn law_meetings_need_their_model(config: AppConfig, probe: EngineProbe)
    ensures
        config.asr.provider is Volcengine ==> engine_problem(config, probe) is Some,
        config.asr.provider is SenseVoiceOnnx ==> (engine_problem(config, probe) is None <==> (
        probe.vad_size is Some && probe.vad_size->0 > 100_000)),
        config.asr.provider is ZipformerStreaming ==> (engine_problem(config, probe) is None
            <==> probe.zipformer_missing@.len() == 0),
{
}

proof fn lemma_leading_zeros(zeros: Seq<char>, digits: Seq<char>)
    requires
        forall|i: int| 0 <= i < zeros.len() ==> #[trigger] zeros[i] == '0',
    ensures
        text::number_of(zeros + digits) == text::number_of(digits),
    decreases zeros.len() + digits.len(),
{
    if digits.len() > 0 {
        lemma_leading_zeros(zeros, digits.drop_last());
        assert((zeros + digits).drop_last() =~= zeros + digits.drop_last());
    } else if zeros.len() > 0 {
        lemma_leading_zeros(zeros.drop_last(), digits);
        assert((zeros + digits).drop_last() =~= zeros.drop_last() + digits);
        assert((zeros + digits).last() == zeros[zeros.len() - 1]);
    } else {
        assert(zeros + digits =~= digits);
    }
}

/// The id of a meeting tells when it began, and its number in at least four digits.
pub proof fn law_an_id_tells_moment_and_number(ts: Seq<char>, n: nat)
    ensures
        four_digits(n).len() >= 4,
        text::number_of(four_digits(n)) == n,
        four_digits(n).is_suffix_of(meeting_id(ts, n)),
        text::contains(meeting_id(ts, n), ts),
{
    let id = meeting_id(ts, n);
    assert(id.subrange(id.len() - four_digits(n).len(), id.len() as int) =~= four_digits(n));
    text::lemma_contains_self(ts);
    text::lemma_contains_within("meeting-"@, ts, "-"@ + four_digits(n), ts);
    assert("meeting-"@ + ts + ("-"@ + four_digits(n)) =~= id);
    let digits = text::decimal(n);
    text::law_digits_stand_for_the_number(n);
    if digits.len() < 4 {
        lemma_leading_zeros(Seq::new((4 - digits.len()) as nat, |i: int| '0'), digits);
    }
}

/// The record of a meeting tells which meeting it is of, when it began and ended, how long it
/// lasted and what was recorded with what; a draft has no end, and neither has been corrected
/// or summarised.
pub proof fn law_a_record_tells_about_its_meeting(
    m: ActiveMeeting,
    text: Seq<char>,
    segments: Seq<TranscriptModel>,
    duration_ms: u64,
    ended_at: Seq<char>,
)
    ensures
        ({
            let draft = draft_record(m, duration_ms, text);
            let record = final_record(m, text, segments, duration_ms, ended_at);
            &&& draft.id == m.id@ && record.id == m.id@
            &&& draft.started_at == m.started_at_iso@ && record.started_at == m.started_at_iso@
            &&& draft.ended_at is None && record.ended_at == Some(ended_at)
            &&& draft.duration_ms == duration_ms && record.duration_ms == duration_ms
            &&& draft.audio_source == m.audio_source && record.audio_source == m.audio_source
            &&& draft.asr_provider == m.asr_provider_name@
            &&& record.asr_provider == m.asr_provider_name@
            &&& draft.status is Recording && record.status is RawOnly
            &&& draft.raw_text == text
            &&& draft.corrected_text is None && record.corrected_text is None
            &&& draft.summary is None && record.summary is None
            &&& draft.last_error is None && record.last_error is None
            &&& draft.draft_audio_path == text::opt_text(m.draft_audio_path)
            &&& record.draft_audio_path == draft.draft_audio_path
            &&& forall|i: int|
                0 <= i < segments.len() ==> (#[trigger] record.segments[i]).start_ms
                    == segments[i].start_ms && record.segments[i].end_ms == segments[i].end_ms
                    && record.segments[i].speaker == segments[i].speaker
            &&& segments.len() == 0 && !text::is_blank(text) ==> record.segments.len() == 1
                && record.segments[0].text == text && record.segments[0].start_ms == 0
                && record.segments[0].end_ms == duration_ms
        }),
{
}

/// The first draft is due at once, and another no sooner and no later than a second and a half
/// after the last.
pub proof fn law_a_draft_is_due_in_time(now: u64, last: u64)
    ensures
        draft_is_due(now, 0),
        last > 0 ==> (draft_is_due(now, last) <==> now >= last + 1500),
{
}

/// The sound of the system is recorded exactly where it was asked for.
pub proof fn law_the_sound_that_was_asked_for_is_recorded(opts: MeetingAudioConfig)
    ensures
        source_of(opts) is MicAndLoopback <==> opts.include_system_audio,
        source_of(opts) is MicOnly <==> !opts.include_system_audio,
{
}

} // verus!
