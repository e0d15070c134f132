//! The streaming recognition engine as a provider.
//!
//! The engine takes in audio chunk by chunk and tells what it makes of the utterance that is
//! going on. What stands here collects the utterances.
use vstd::prelude::*;

use crate::asr::{AsrCapabilities, AsrSession, TranscriptModel, TranscriptSegment};
use crate::{asr, text};

verus! {

pub fn name() -> (r: &'static str)
    ensures
        r@ == "zipformer_streaming"@,
{
    "zipformer_streaming"
}

pub fn capabilities() -> (r: AsrCapabilities)
    ensures
        r.streaming,
        r.offline,
        text::views(r.languages@) == seq!["zh"@, "en"@],
        !r.supports_diarization,
{
    AsrCapabilities {
        streaming: true,
        offline: true,
        languages: text::strings2("zh", "en"),
        supports_diarization: false,
    }
}

/// What has to be right before the engine can be loaded: a directory is set, and nothing is
/// missing in it.
pub fn check_setup(model_dir: &str, missing: &Vec<String>) -> (r: Result<(), String>)
    ensures
        if model_dir@.len() == 0 {
            r matches Err(m) && m@
                == "Zipformer 模型目录未设置。请在设置中下载 Zipformer 流式模型。"@
        } else if missing@.len() > 0 {
            r matches Err(m) && m@
                == "Zipformer 模型文件不完整，缺少: "@
                + text::joined(text::views(missing@), ", "@)
                + "。请在设置中下载模型。"@
        } else {
            r is Ok
        },
{
    if model_dir.is_empty() {
        return Err(
            "Zipformer 模型目录未设置。请在设置中下载 Zipformer 流式模型。".to_string(),
        );
    }
    if missing.len() > 0 {
        let list = text::join(missing, ", ");
        return Err(
            text::concat3(
                "Zipformer 模型文件不完整，缺少: ",
                list.as_str(),
                "。请在设置中下载模型。",
            ),
        );
    }
    Ok(())
}

/// The utterances of a stream, as far as they are known.
pub struct Collector {
    full_text: String,
    segments: Vec<TranscriptSegment>,
    last_partial: String,
    utterance_start_ms: u64,
    total_ms: u64,
}

/// What a collector holds.
#[verifier::ext_equal]
pub struct CollectorModel {
    /// The text of the finished utterances.
    pub full_text: Seq<char>,
    pub segments: Seq<TranscriptModel>,
    /// What was last reported of the utterance that is going on.
    pub last_partial: Seq<char>,
    /// When the utterance that is going on began.
    pub start_ms: u64,
    /// The length of the stream so far.
    pub total_ms: u64,
}

impl View for Collector {
    type V = CollectorModel;

    closed spec fn view(&self) -> CollectorModel {
        CollectorModel {
            full_text: self.full_text@,
            segments: asr::transcript_views(self.segments@),
            last_partial: self.last_partial@,
            start_ms: self.utterance_start_ms,
            total_ms: self.total_ms,
        }
    }
}

/// The text of finished utterances with one more.
pub open spec fn with_utterance(full_text: Seq<char>, text: Seq<char>) -> Seq<char> {
    if full_text.len() > 0 {
        full_text.push(' ') + text
    } else {
        text
    }
}

/// The state after the utterance that is going on was found to be `text`; an utterance
/// without text is none.
pub open spec fn utterance_added(m: CollectorModel, text: Seq<char>) -> CollectorModel {
    if text.len() == 0 {
        m
    } else {
        CollectorModel {
            full_text: with_utterance(m.full_text, text),
            segments: m.segments.push(
                TranscriptModel {
                    start_ms: m.start_ms,
                    end_ms: m.total_ms,
                    speaker: None,
                    text,
                },
            ),
            ..m
        }
    }
}

/// What the engine makes of the utterance that is going on, without the white space round
/// it.
pub open spec fn heard(result: Option<&str>) -> Seq<char> {
    match result {
        Some(t) => text::trim(t@),
        None => seq![],
    }
}

fn heard_text(result: Option<&str>) -> (r: String)
    ensures
        r@ == heard(result),
{
    match result {
        Some(t) => text::trim_str(t).to_string(),
        None => String::new(),
    }
}

/// What is reported of the utterance that is going on, where it is something new: the text of
/// the finished utterances, followed by it.
pub open spec fn news(m: CollectorModel, text: Seq<char>) -> Option<Seq<char>> {
    if text.len() > 0 && text != m.last_partial {
        Some(m.full_text + text)
    } else {
        None
    }
}

/// The state after something was reported of the utterance that is going on.
pub open spec fn after_news(m: CollectorModel, text: Seq<char>) -> CollectorModel {
    if news(m, text) is Some {
        CollectorModel { last_partial: text, ..m }
    } else {
        m
    }
}

/// The state after the end of an utterance. The next one begins there.
pub open spec fn utterance_ended(m: CollectorModel, text: Seq<char>) -> CollectorModel {
    CollectorModel {
        last_partial: Seq::<char>::empty(),
        start_ms: m.total_ms,
        ..utterance_added(m, text)
    }
}

/// The state at the start of a stream.
pub open spec fn no_utterances() -> CollectorModel {
    CollectorModel {
        full_text: seq![],
        segments: seq![],
        last_partial: seq![],
        start_ms: 0,
        total_ms: 0,
    }
}

/// The texts of the utterances.
pub open spec fn utterance_texts(m: CollectorModel) -> Seq<Seq<char>> {
    m.segments.map_values(|s: TranscriptModel| s.text)
}

/// The text is that of the utterances, separated by spaces; none is empty; and they follow
/// each other in time, within the stream.
pub open spec fn is_transcript(m: CollectorModel) -> bool {
    &&& m.full_text == text::joined(utterance_texts(m), " "@)
    &&& forall|i: int| 0 <= i < m.segments.len() ==> (#[trigger] m.segments[i]).text.len() > 0
    &&& forall|i: int|
        0 <= i < m.segments.len() ==> (#[trigger] m.segments[i]).start_ms <= m.segments[i].end_ms
            <= m.total_ms
    &&& forall|i: int, j: int|
        0 <= i < j < m.segments.len() ==> (#[trigger] m.segments[i]).end_ms <= (
        #[trigger] m.segments[j]).start_ms
}

/// What holds of a collector while the stream lasts: what it has collected is a transcript,
/// and the utterance that is going on comes after it.
pub open spec fn is_consistent(m: CollectorModel) -> bool {
    &&& is_transcript(m)
    &&& m.start_ms <= m.total_ms
    &&& forall|i: int| 0 <= i < m.segments.len() ==> (#[trigger] m.segments[i]).end_ms <= m.start_ms
}

impl Collector {
    pub fn new() -> (r: Self)
        ensures
            r@ == no_utterances(),
    {
        let r = Collector {
            full_text: String::new(),
            segments: Vec::new(),
            last_partial: String::new(),
            utterance_start_ms: 0,
            total_ms: 0,
        };
        assert(r@ =~= no_utterances());
        r
    }

    /// Takes what the engine makes of the utterance that is going on. Where that is
    /// something new, gives the text to report: that of the finished utterances, followed
    /// by it.
    pub fn partial(&mut self, result: Option<&str>) -> (r: Option<String>)
        ensures
            crate::text::opt_text(r) == news(old(self)@, heard(result)),
            final(self)@ == after_news(old(self)@, heard(result)),
    {
        let text = heard_text(result);
        if text.as_str().is_empty() || text::str_eq(text.as_str(), self.last_partial.as_str()) {
            return None;
        }
        let snapshot = text::concat2(self.full_text.as_str(), text.as_str());
        self.last_partial = text;
        Some(snapshot)
    }

    /// Takes the end of an utterance, which the engine makes this of.
    pub fn endpoint(&mut self, result: Option<&str>)
        ensures
            final(self)@ == utterance_ended(old(self)@, heard(result)),
    {
        self.add_utterance(heard_text(result));
        self.last_partial = String::new();
        self.utterance_start_ms = self.total_ms;
    }

    /// Takes note of a chunk of this length.
    pub fn advance(&mut self, chunk_ms: u64)
        requires
            old(self)@.total_ms + chunk_ms <= u64::MAX,
        ensures
            final(self)@ == (CollectorModel {
                total_ms: (old(self)@.total_ms + chunk_ms) as u64,
                ..old(self)@
            }),
    {
        self.total_ms = self.total_ms + chunk_ms;
    }

    /// Takes the end of the stream, of whose last utterance the engine makes this.
    pub fn finish(&mut self, result: Option<&str>)
        ensures
            final(self)@ == utterance_added(old(self)@, heard(result)),
    {
        self.add_utterance(heard_text(result));
    }

    fn add_utterance(&mut self, text: String)
        ensures
            final(self)@ == utterance_added(old(self)@, text@),
    {
        if text.as_str().is_empty() {
            return;
        }
        if !self.full_text.as_str().is_empty() {
            self.full_text.push(' ');
        }
        self.full_text.append(text.as_str());
        let ghost before = asr::transcript_views(self.segments@);
        let segment = TranscriptSegment {
            start_ms: self.utterance_start_ms,
            end_ms: self.total_ms,
            speaker: None,
            text,
        };
        self.segments.push(segment);
        assert(asr::transcript_views(self.segments@) =~= before.push(segment@));
        assert(self@ =~= utterance_added(old(self)@, text@));
    }
}

impl AsrSession for Collector {
    /// The text of the utterances.
    fn finish_and_wait(self) -> (r: Result<String, String>)
        ensures
            r matches Ok(t) && t@ == self@.full_text,
    {
        Ok(self.full_text)
    }

    /// The utterances.
    fn take_segments(&self) -> (r: Vec<TranscriptSegment>)
        ensures
            asr::transcript_views(r@) == self@.segments,
    {
        let r = self.segments.clone();
        assert(r@ =~= self.segments@);
        r
    }
}

/// A collector is consistent from the start, and stays so whatever the engine tells.
pub proof fn law_collector_stays_consistent(m: CollectorModel, text: Seq<char>, chunk_ms: u64)
    requires
        is_consistent(m),
    ensures
        is_consistent(no_utterances()),
        is_consistent(CollectorModel { last_partial: text, ..m }),
        is_consistent(
            CollectorModel {
                last_partial: Seq::<char>::empty(),
                start_ms: m.total_ms,
                ..utterance_added(m, text)
            },
        ),
        m.total_ms + chunk_ms <= u64::MAX ==> is_consistent(
            CollectorModel { total_ms: (m.total_ms + chunk_ms) as u64, ..m },
        ),
{
    assert(utterance_texts(no_utterances()) =~= seq![]);
    let a = utterance_added(m, text);
    if text.len() > 0 {
        let before = utterance_texts(m);
        let after = utterance_texts(a);
        assert(after =~= before.push(text));
        assert(after.drop_last() =~= before);
        reveal_strlit(" ");
        if before.len() == 0 {
            assert(m.full_text =~= seq![]);
        } else {
            text::lemma_joined_not_empty(before, " "@);
            assert(m.full_text.push(' ') + text =~= m.full_text + " "@ + text);
        }
        let e = CollectorModel { last_partial: Seq::<char>::empty(), start_ms: m.total_ms, ..a };
        assert(utterance_texts(e) =~= after);
        assert(e.full_text == text::joined(utterance_texts(e), " "@));
    }
    assert(utterance_texts(CollectorModel { last_partial: text, ..m }) =~= utterance_texts(m));
}

/// Once the stream has ended, the text that is handed out is that of the utterances that are
/// handed out beside it, separated by spaces. The last utterance, where there is one, lasts to
/// the end of the stream; those before it stay as they were.
pub proof fn law_finished_text_is_that_of_the_segments(m: CollectorModel, result: Option<&str>)
    requires
        is_consistent(m),
    ensures
        ({
            let done = utterance_added(m, heard(result));
            &&& is_transcript(done)
            &&& m.segments.is_prefix_of(done.segments)
            &&& if heard(result).len() > 0 {
                &&& done.segments.len() == m.segments.len() + 1
                &&& done.segments.last().text == heard(result)
                &&& done.segments.last().start_ms == m.start_ms
                &&& done.segments.last().end_ms == m.total_ms
            } else {
                done == m
            }
        }),
{
    let text = heard(result);
    law_collector_stays_consistent(m, text, 0);
    let done = utterance_added(m, text);
    let ended = CollectorModel {
        last_partial: Seq::<char>::empty(),
        start_ms: m.total_ms,
        ..done
    };
    assert(is_transcript(ended));
    assert(utterance_texts(done) =~= utterance_texts(ended));
    assert(m.segments =~= done.segments.take(m.segments.len() as int));
}

/// What is heard is reported once, behind what was said before it, and again only where it has
/// changed or a new utterance has begun.
pub proof fn law_news_is_reported_once(m: CollectorModel, text: Seq<char>, other: Seq<char>)
    requires
        text.len() > 0,
        text != m.last_partial,
    ensures
        news(m, text) == Some(m.full_text + text),
        news(after_news(m, text), text) is None,
        other.len() > 0 && other != text ==> news(after_news(m, text), other) is Some,
        news(m, Seq::<char>::empty()) is None,
        after_news(m, text).segments == m.segments,
        after_news(m, text).full_text == m.full_text,
        news(utterance_ended(after_news(m, text), text), text) is Some,
{
}

/// An utterance that has ended is kept with its words and its times, and the next one begins
/// where it has ended.
pub proof fn law_utterances_follow_each_other(m: CollectorModel, text: Seq<char>)
    ensures
        utterance_ended(m, text).start_ms == m.total_ms,
        utterance_ended(m, text).total_ms == m.total_ms,
        text.len() > 0 ==> utterance_ended(m, text).segments.len() == m.segments.len() + 1
            && utterance_ended(m, text).segments.last().text == text && utterance_ended(
            m,
            text,
        ).segments.last().start_ms == m.start_ms && utterance_ended(m, text).segments.last().end_ms
            == m.total_ms,
        text.len() == 0 ==> utterance_ended(m, text).segments == m.segments,
        text.is_suffix_of(utterance_ended(m, text).full_text),
        m.full_text.is_prefix_of(utterance_ended(m, text).full_text),
{
    let all = utterance_ended(m, text).full_text;
    assert(all.subrange(all.len() - text.len(), all.len() as int) =~= text);
    assert(all.subrange(0, m.full_text.len() as int) =~= m.full_text);
}

} // verus!
