//! Speech recognition.
use vstd::prelude::*;

use crate::text;

pub mod sensevoice;
pub mod zipformer;

verus! {

/// What a recognition engine can do.
pub struct AsrCapabilities {
    pub streaming: bool,
    pub offline: bool,
    pub languages: Vec<String>,
    pub supports_diarization: bool,
}

impl Default for AsrCapabilities {
    fn default() -> (r: Self)
        ensures
            !r.streaming,
            !r.offline,
            r.languages@ == Seq::<String>::empty(),
            !r.supports_diarization,
    {
        AsrCapabilities {
            streaming: false,
            offline: false,
            languages: Vec::new(),
            supports_diarization: false,
        }
    }
}

/// A recognised stretch of speech.
pub struct TranscriptSegment {
    pub start_ms: u64,
    pub end_ms: u64,
    pub speaker: Option<String>,
    pub text: String,
}

/// What a recognised stretch of speech holds.
#[verifier::ext_equal]
pub struct TranscriptModel {
    pub start_ms: u64,
    pub end_ms: u64,
    pub speaker: Option<Seq<char>>,
    pub text: Seq<char>,
}

impl View for TranscriptSegment {
    type V = TranscriptModel;

    open spec fn view(&self) -> TranscriptModel {
        TranscriptModel {
            start_ms: self.start_ms,
            end_ms: self.end_ms,
            speaker: text::opt_text(self.speaker),
            text: self.text@,
        }
    }
}

pub open spec fn transcript_views(s: Seq<TranscriptSegment>) -> Seq<TranscriptModel> {
    s.map_values(|x: TranscriptSegment| x@)
}

impl Clone for TranscriptSegment {
    fn clone(&self) -> (r: Self)
        ensures
            r == *self,
    {
        TranscriptSegment {
            start_ms: self.start_ms,
            end_ms: self.end_ms,
            speaker: self.speaker.clone(),
            text: self.text.clone(),
        }
    }
}

// ---------------------------------------------------------------------------
// Sessions
// ---------------------------------------------------------------------------

/// A recognition that is under way. Engines implement this.
pub trait AsrSession: Sized {
    /// Takes in what audio is left and gives the text.
    fn finish_and_wait(self) -> (r: Result<String, String>);

    /// The recognised stretches of speech. Engines that know none give none.
    fn take_segments(&self) -> (r: Vec<TranscriptSegment>)
        default_ensures
            r@ == Seq::<TranscriptSegment>::empty(),
    {
        Vec::new()
    }
}

/// A recognition that was handed out, of whatever engine.
pub struct StreamingSession<S: AsrSession> {
    inner: Option<S>,
    segments: Vec<TranscriptSegment>,
}

impl<S: AsrSession> StreamingSession<S> {
    /// The recognition of the engine, until it is finished.
    pub closed spec fn session(self) -> Option<S> {
        self.inner
    }

    /// The stretches of speech that were kept.
    pub closed spec fn kept(self) -> Seq<TranscriptModel> {
        transcript_views(self.segments@)
    }

    pub fn new(session: S) -> (r: Self)
        ensures
            r.session() == Some(session),
            r.kept() == Seq::<TranscriptModel>::empty(),
    {
        let r = StreamingSession { inner: Some(session), segments: Vec::new() };
        assert(r.kept() =~= seq![]);
        r
    }

    /// Finishes the recognition and gives its text. The stretches of speech that the engine
    /// knew before are kept. A recognition is finished once.
    pub fn finish_and_wait(&mut self) -> (r: Result<String, String>)
        ensures
            final(self).session() is None,
            match old(self).session() {
                Some(s) => call_ensures(S::finish_and_wait, (s,), r) && exists|found: Vec<
                    TranscriptSegment,
                >|
                    call_ensures(S::take_segments, (&s,), found) && final(self).kept()
                        == #[trigger] transcript_views(found@),
                None => (r matches Err(m) && m@ == "Session already finished"@)
                    && final(self).kept() == old(self).kept(),
            },
    {
        match self.inner.take() {
            Some(session) => {
                self.segments = session.take_segments();
                assert(self.kept() == transcript_views(self.segments@));
                session.finish_and_wait()
            },
            None => Err("Session already finished".to_string()),
        }
    }

    /// The stretches of speech that were kept.
    pub fn take_segments(&self) -> (r: Vec<TranscriptSegment>)
        ensures
            transcript_views(r@) == self.kept(),
    {
        let r = self.segments.clone();
        assert(r@ =~= self.segments@);
        r
    }
}

// ---------------------------------------------------------------------------
// The engine in use
// ---------------------------------------------------------------------------

/// Why the engine on this machine could not be loaded.
pub fn engine_load_error(cause: &str) -> (r: String)
    ensures
        r@ == "SenseVoice 离线引擎加载失败: "@ + cause@
            + "。请检查模型文件是否存在，以及 onnxruntime.dll 是否可用。"@,
{
    text::concat3(
        "SenseVoice 离线引擎加载失败: ",
        cause,
        "。请检查模型文件是否存在，以及 onnxruntime.dll 是否可用。",
    )
}

/// How an attempt to get hold of the engine in use went.
pub enum LockOutcome {
    Acquired,
    /// A recognition is under way.
    Busy,
    /// The lock is unusable, for this reason.
    Poisoned(String),
}

/// What follows from an attempt to replace the engine.
pub enum ReplaceStep {
    Replace,
    /// Try again after a fifth of a second.
    RetryAfterMs(u64),
    /// Give up, with this message.
    Fail(String),
}

/// How often it is tried to replace the engine.
pub const REPLACE_ATTEMPTS: u32 = 5;

/// The message when the lock is unusable.
pub open spec fn poisoned_text(cause: Seq<char>) -> Seq<char> {
    "ASR 服务锁损坏，无法切换引擎: "@ + cause
}

/// The message when the engine stayed in use.
pub open spec fn busy_text() -> Seq<char> {
    "无法切换引擎：当前仍有录音/会议会话占用 ASR 服务（重试 5 次均被阻塞）。请先停止录音或结束会议，再切换引擎。"@
}

/// What follows from attempt number `attempt` to replace the engine. An engine that is in
/// use is waited for, and a failure to get hold of it is reported and not passed over.
pub fn replace_step(attempt: u32, outcome: LockOutcome) -> (r: ReplaceStep)
    ensures
        match outcome {
            LockOutcome::Acquired => r is Replace,
            LockOutcome::Busy => if attempt < REPLACE_ATTEMPTS {
                r == ReplaceStep::RetryAfterMs(200)
            } else {
                r matches ReplaceStep::Fail(m) && m@ == busy_text()
            },
            LockOutcome::Poisoned(cause) => r matches ReplaceStep::Fail(m) && m@ == poisoned_text(
                cause@,
            ),
        },
{
    match outcome {
        LockOutcome::Acquired => ReplaceStep::Replace,
        LockOutcome::Busy => if attempt < REPLACE_ATTEMPTS {
            ReplaceStep::RetryAfterMs(200)
        } else {
            ReplaceStep::Fail(
                "无法切换引擎：当前仍有录音/会议会话占用 ASR 服务（重试 5 次均被阻塞）。请先停止录音或结束会议，再切换引擎。".to_string(),
            )
        },
        LockOutcome::Poisoned(cause) => ReplaceStep::Fail(
            text::concat2(
                "ASR 服务锁损坏，无法切换引擎: ",
                cause.as_str(),
            ),
        ),
    }
}

} // verus!
