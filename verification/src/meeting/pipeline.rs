//! The way from the stretches of speech of a meeting to its text.
use vstd::prelude::*;

use crate::asr::{TranscriptModel, TranscriptSegment};
use crate::{asr, text};

verus! {

/// The recognised stretches of a meeting, and their text.
pub struct SegmentAccumulator {
    pub full_text: String,
    pub segments: Vec<TranscriptSegment>,
}

/// What the recognition of a meeting came to.
pub struct PipelineResult {
    pub full_text: String,
    pub segments: Vec<TranscriptSegment>,
}

/// A text followed by that of one more stretch.
pub open spec fn with_text(full_text: Seq<char>, text: Seq<char>) -> Seq<char> {
    if full_text.len() > 0 && text.len() > 0 {
        full_text.push(' ') + text
    } else {
        full_text + text
    }
}

/// The stretches with one more; a stretch of white space is none.
pub open spec fn with_segment(
    segments: Seq<TranscriptModel>,
    start_ms: u64,
    end_ms: u64,
    text: Seq<char>,
) -> Seq<TranscriptModel> {
    if text::is_blank(text) {
        segments
    } else {
        segments.push(TranscriptModel { start_ms, end_ms, speaker: None, text })
    }
}

/// The texts that are not empty.
pub open spec fn spoken(texts: Seq<Seq<char>>) -> Seq<Seq<char>> {
    texts.filter(|t: Seq<char>| t.len() > 0)
}

/// The text after stretches with these texts.
pub open spec fn accumulated(texts: Seq<Seq<char>>) -> Seq<char>
    decreases texts.len(),
{
    if texts.len() == 0 {
        seq![]
    } else {
        with_text(accumulated(texts.drop_last()), texts.last())
    }
}

impl SegmentAccumulator {
    pub fn new() -> (r: Self)
        ensures
            r.full_text@ == Seq::<char>::empty(),
            r.segments@ == Seq::<TranscriptSegment>::empty(),
    {
        SegmentAccumulator { full_text: String::new(), segments: Vec::new() }
    }

    /// Adds a recognised stretch that began and ended at these times.
    pub fn push(&mut self, start_ms: u64, end_ms: u64, text: &str)
        ensures
            final(self).full_text@ == with_text(old(self).full_text@, text@),
            asr::transcript_views(final(self).segments@) == with_segment(
                asr::transcript_views(old(self).segments@),
                start_ms,
                end_ms,
                text@,
            ),
    {
        if !self.full_text.as_str().is_empty() && !text.is_empty() {
            self.full_text.push(' ');
        }
        self.full_text.append(text);
        assert(self.full_text@ =~= with_text(old(self).full_text@, text@));
        if !text::is_blank_str(text) {
            let ghost before = asr::transcript_views(self.segments@);
            let segment = TranscriptSegment {
                start_ms,
                end_ms,
                speaker: None,
                text: text.to_string(),
            };
            self.segments.push(segment);
            assert(asr::transcript_views(self.segments@) =~= before.push(segment@));
        }
    }

    /// Takes what the recognition of a stretch came to. A stretch that could not be
    /// recognised is passed over. Gives the text so far where there is news.
    pub fn segment_recognised(
        &mut self,
        start_ms: u64,
        end_ms: u64,
        outcome: Result<String, String>,
    ) -> (r: Option<String>)
        ensures
            match outcome {
                Ok(text) => {
                    &&& final(self).full_text@ == with_text(old(self).full_text@, text@)
                    &&& asr::transcript_views(final(self).segments@) == with_segment(
                        asr::transcript_views(old(self).segments@),
                        start_ms,
                        end_ms,
                        text@,
                    )
                    &&& r matches Some(t) && t@ == final(self).full_text@
                },
                Err(_) => r is None && *final(self) == *old(self),
            },
    {
        match outcome {
            Ok(text) => {
                self.push(start_ms, end_ms, text.as_str());
                Some(self.full_text.clone())
            },
            Err(_) => None,
        }
    }

    pub fn finish(self) -> (r: PipelineResult)
        ensures
            r.full_text@ == self.full_text@,
            r.segments@ == self.segments@,
    {
        PipelineResult { full_text: self.full_text, segments: self.segments }
    }
}

/// The text of a meeting is that of its stretches, separated by single spaces; stretches
/// without text leave no trace in it.
pub proof fn law_text_is_that_of_the_segments(texts: Seq<Seq<char>>)
    ensures
        accumulated(texts) == text::joined(spoken(texts), " "@),
        accumulated(texts).len() == 0 <==> spoken(texts).len() == 0,
    decreases texts.len(),
{
    reveal(Seq::filter);
    reveal_strlit(" ");
    if texts.len() > 0 {
        let before = texts.drop_last();
        let t = texts.last();
        law_text_is_that_of_the_segments(before);
        if t.len() > 0 {
            let all = spoken(before).push(t);
            assert(spoken(texts) =~= all);
            assert(all.drop_last() =~= spoken(before));
            if spoken(before).len() == 0 {
                assert(accumulated(before) + t =~= t);
            } else {
                assert(accumulated(before).push(' ') + t =~= accumulated(before) + " "@ + t);
            }
        } else {
            assert(accumulated(before) + t =~= accumulated(before));
            assert(spoken(texts) =~= spoken(before));
        }
    }
}

// ---------------------------------------------------------------------------
// Chunks for the resampler
// ---------------------------------------------------------------------------

/// The number of samples that are resampled at once.
pub const RESAMPLE_CHUNK: usize = 1024;

/// `chunks` holds the samples in order, in chunks of the same length of which the last is
/// filled up.
pub open spec fn is_padded_split<T>(samples: Seq<T>, zero: T, chunks: Seq<Seq<T>>) -> bool {
    &&& chunks.len() == (samples.len() + RESAMPLE_CHUNK - 1) / RESAMPLE_CHUNK as int
    &&& forall|c: int| 0 <= c < chunks.len() ==> (#[trigger] chunks[c]).len() == RESAMPLE_CHUNK
    &&& forall|c: int, i: int|
        0 <= c < chunks.len() && 0 <= i < RESAMPLE_CHUNK ==> #[trigger] chunks[c][i] == (
        if c * RESAMPLE_CHUNK + i < samples.len() {
            samples[c * RESAMPLE_CHUNK + i]
        } else {
            zero
        })
}

pub open spec fn chunk_views<T>(chunks: Seq<Vec<T>>) -> Seq<Seq<T>> {
    chunks.map_values(|c: Vec<T>| c@)
}

/// The samples in chunks for the resampler, the last one filled up with `zero`.
pub fn resample_chunks<T: Copy>(samples: &Vec<T>, zero: T) -> (r: Vec<Vec<T>>)
    ensures
        is_padded_split(samples@, zero, chunk_views(r@)),
{
    let mut out: Vec<Vec<T>> = Vec::new();
    let n: usize = samples.len();
    let mut start: usize = 0;
    while start < n
        invariant
            n == samples@.len(),
            start == out@.len() * RESAMPLE_CHUNK || start == n && out@.len() == (n + 1023) / 1024,
            start <= n,
            start == n ==> out@.len() == (n + 1023) / 1024,
            forall|c: int|
                0 <= c < out@.len() ==> (#[trigger] out@[c])@.len() == RESAMPLE_CHUNK,
            forall|c: int, i: int|
                0 <= c < out@.len() && 0 <= i < RESAMPLE_CHUNK ==> #[trigger] out@[c]@[i] == (
                if c * RESAMPLE_CHUNK + i < samples@.len() {
                    samples@[c * RESAMPLE_CHUNK + i]
                } else {
                    zero
                }),
        decreases n - start,
    {
        let ghost c = out@.len();
        let mut chunk: Vec<T> = Vec::new();
        for i in 0..RESAMPLE_CHUNK
            invariant
                n == samples@.len(),
                start == c * RESAMPLE_CHUNK,
                start < n,
                chunk@.len() == i,
                forall|k: int|
                    0 <= k < i ==> #[trigger] chunk@[k] == (if c * RESAMPLE_CHUNK + k
                        < samples@.len() {
                        samples@[c * RESAMPLE_CHUNK + k]
                    } else {
                        zero
                    }),
        {
            if i < n - start {
                chunk.push(samples[start + i]);
            } else {
                chunk.push(zero);
            }
        }
        let ghost before = out@;
        out.push(chunk);
        assert forall|d: int, i: int|
            0 <= d < out@.len() && 0 <= i < RESAMPLE_CHUNK implies #[trigger] out@[d]@[i] == (
        if d * RESAMPLE_CHUNK + i < samples@.len() {
            samples@[d * RESAMPLE_CHUNK + i]
        } else {
            zero
        }) by {
            if d < before.len() {
                assert(out@[d] == before[d]);
            }
        }
        if n - start <= RESAMPLE_CHUNK {
            start = n;
        } else {
            start = start + RESAMPLE_CHUNK;
        }
    }
    let ghost views = chunk_views(out@);
    assert forall|c: int, i: int|
        0 <= c < views.len() && 0 <= i < RESAMPLE_CHUNK implies #[trigger] views[c][i] == (
    if c * RESAMPLE_CHUNK + i < samples@.len() {
        samples@[c * RESAMPLE_CHUNK + i]
    } else {
        zero
    }) by {
        assert(views[c][i] == out@[c]@[i]);
    }
    out
}

/// Each stretch in which something was said is kept, with its times and its words; one without
/// is not.
pub proof fn law_stretches_are_kept_with_their_times(
    segments: Seq<TranscriptModel>,
    start_ms: u64,
    end_ms: u64,
    text: Seq<char>,
)
    ensures
        ({
            let all = with_segment(segments, start_ms, end_ms, text);
            &&& segments.is_prefix_of(all)
            &&& text::is_blank(text) ==> all == segments
            &&& !text::is_blank(text) ==> all.len() == segments.len() + 1 && all.last().start_ms
                == start_ms && all.last().end_ms == end_ms && all.last().text == text
        }),
{
    let all = with_segment(segments, start_ms, end_ms, text);
    assert(all.subrange(0, segments.len() as int) =~= segments);
}

/// No sample is lost in the chunks for the resampler: sample `k` stands at its place, and what
/// is filled up comes behind the last.
pub proof fn law_chunks_hold_all_samples<T>(
    samples: Seq<T>,
    zero: T,
    chunks: Seq<Seq<T>>,
    k: int,
)
    requires
        is_padded_split(samples, zero, chunks),
        0 <= k < chunks.len() * 1024,
    ensures
        samples.len() <= chunks.len() * 1024 < samples.len() + 1024,
        k < samples.len() ==> chunks[k / 1024][k % 1024] == samples[k],
        k >= samples.len() ==> chunks[k / 1024][k % 1024] == zero,
{
    let c = k / 1024;
    let i = k % 1024;
    assert(c * RESAMPLE_CHUNK + i == k);
    assert(0 <= c < chunks.len());
    let v = chunks[c][i];
}

} // verus!
