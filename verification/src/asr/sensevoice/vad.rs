//! The detection of stretches of speech in a stream of samples.
//!
//! Whether a chunk of samples is speech is decided elsewhere. What stands here turns those
//! decisions into stretches of speech.
use vstd::prelude::*;

use crate::text;

verus! {

/// The number of samples that are judged at once: 32 milliseconds.
pub const VAD_CHUNK: usize = 512;

/// The samples of the preceding chunk that go before a chunk.
pub const VAD_CONTEXT: usize = 64;

/// A stretch of speech, with the positions in the stream at which it begins and ends.
pub struct VadSegment<T> {
    pub samples: Vec<T>,
    pub start_sample: u64,
    pub end_sample: u64,
}

/// What a stretch of speech holds.
#[verifier::ext_equal]
pub struct SegmentModel<T> {
    pub samples: Seq<T>,
    pub start: int,
    pub end: int,
}

impl<T> View for VadSegment<T> {
    type V = SegmentModel<T>;

    open spec fn view(&self) -> SegmentModel<T> {
        SegmentModel {
            samples: self.samples@,
            start: self.start_sample as int,
            end: self.end_sample as int,
        }
    }
}

pub open spec fn segment_views<T>(s: Seq<VadSegment<T>>) -> Seq<SegmentModel<T>> {
    s.map_values(|x: VadSegment<T>| x@)
}

/// When a stretch of speech begins and ends, in samples.
#[derive(Clone, Copy, Debug, PartialEq, Eq, Structural)]
pub struct VadEndpointerConfig {
    /// The silence that ends a stretch of speech.
    pub min_silence_samples: u64,
    /// The samples that are kept from before a stretch of speech.
    pub speech_pad_samples: u64,
    /// The length at which a stretch of speech is split.
    pub max_segment_samples: u64,
}

impl Default for VadEndpointerConfig {
    /// Half a second of silence, a fifth of a second of padding, and half a minute at most.
    fn default() -> (r: Self)
        ensures
            r == (VadEndpointerConfig {
                min_silence_samples: 8_000,
                speech_pad_samples: 3_200,
                max_segment_samples: 480_000,
            }),
    {
        VadEndpointerConfig {
            min_silence_samples: 8_000,
            speech_pad_samples: 3_200,
            max_segment_samples: 480_000,
        }
    }
}

/// Turns the judgements on the chunks of a stream into stretches of speech.
pub struct VadEndpointer<T> {
    cfg: VadEndpointerConfig,
    in_speech: bool,
    speech_start_sample: u64,
    current_segment: Vec<T>,
    silence_run: u64,
    total_seen: u64,
    chunk_buffer: Vec<T>,
    pre_roll: Vec<T>,
}

/// Where an endpointer stands.
#[verifier::ext_equal]
pub struct EndpointerModel<T> {
    /// Whether a stretch of speech is going on.
    pub in_speech: bool,
    /// Where it began.
    pub start: int,
    /// Its samples so far.
    pub segment: Seq<T>,
    /// The silence at its end.
    pub silence: int,
    /// The samples of the stream that have been judged.
    pub seen: int,
    /// The samples that have not been judged yet.
    pub waiting: Seq<T>,
    /// The last samples before a possible stretch of speech.
    pub pre_roll: Seq<T>,
}

/// The state once samples have been fed, before any of them is judged.
pub open spec fn fed<T>(m: EndpointerModel<T>, samples: Seq<T>) -> EndpointerModel<T> {
    EndpointerModel { waiting: m.waiting + samples, ..m }
}

/// The last `n` items of `s`, or all of them where there are fewer.
pub open spec fn last_items<T>(s: Seq<T>, n: int) -> Seq<T> {
    if s.len() <= n {
        s
    } else {
        s.skip(s.len() - n)
    }
}

/// What a chunk makes of the state, before it is decided whether the stretch ends.
pub open spec fn heard<T>(
    m: EndpointerModel<T>,
    cfg: VadEndpointerConfig,
    chunk: Seq<T>,
    is_speech: bool,
) -> EndpointerModel<T> {
    let pad = cfg.speech_pad_samples as int;
    let seen = m.seen + chunk.len();
    if m.in_speech {
        EndpointerModel {
            segment: m.segment + chunk,
            silence: if is_speech {
                0
            } else {
                m.silence + chunk.len()
            },
            seen,
            ..m
        }
    } else if is_speech {
        EndpointerModel {
            in_speech: true,
            start: m.seen - m.pre_roll.len(),
            segment: m.pre_roll + chunk,
            silence: 0,
            seen,
            ..m
        }
    } else {
        EndpointerModel { seen, pre_roll: last_items(m.pre_roll + chunk, pad), ..m }
    }
}

/// The stretch of speech ends here: it is too long, or silence has followed it.
pub open spec fn ends<T>(m: EndpointerModel<T>, cfg: VadEndpointerConfig) -> bool {
    m.in_speech && (m.segment.len() >= cfg.max_segment_samples || m.silence
        >= cfg.min_silence_samples)
}

/// The stretch of speech that is going on.
pub open spec fn current<T>(m: EndpointerModel<T>) -> SegmentModel<T> {
    SegmentModel { samples: m.segment, start: m.start, end: m.seen }
}

/// The state after the stretch of speech ended.
pub open spec fn after_end<T>(m: EndpointerModel<T>) -> EndpointerModel<T> {
    EndpointerModel { in_speech: false, segment: seq![], silence: 0, pre_roll: seq![], ..m }
}

/// The state after a chunk was judged.
pub open spec fn after_chunk<T>(
    m: EndpointerModel<T>,
    cfg: VadEndpointerConfig,
    chunk: Seq<T>,
    is_speech: bool,
) -> EndpointerModel<T> {
    let h = heard(m, cfg, chunk, is_speech);
    if ends(h, cfg) {
        after_end(h)
    } else {
        h
    }
}

/// The stretch of speech that a chunk completes, if it does.
pub open spec fn completed<T>(
    m: EndpointerModel<T>,
    cfg: VadEndpointerConfig,
    chunk: Seq<T>,
    is_speech: bool,
) -> Seq<SegmentModel<T>> {
    let h = heard(m, cfg, chunk, is_speech);
    if ends(h, cfg) {
        seq![current(h)]
    } else {
        seq![]
    }
}

/// The chunk at place `i` of the samples that wait.
pub open spec fn nth_chunk<T>(waiting: Seq<T>, i: int) -> Seq<T> {
    waiting.subrange(i * VAD_CHUNK, i * VAD_CHUNK + VAD_CHUNK)
}

/// The state after the first `speech.len()` chunks that wait were judged.
pub open spec fn after_chunks<T>(
    m: EndpointerModel<T>,
    cfg: VadEndpointerConfig,
    speech: Seq<bool>,
) -> EndpointerModel<T>
    decreases speech.len(),
{
    if speech.len() == 0 {
        m
    } else {
        let before = after_chunks(m, cfg, speech.drop_last());
        let chunk = before.waiting.take(VAD_CHUNK as int);
        let rest = EndpointerModel { waiting: before.waiting.skip(VAD_CHUNK as int), ..before };
        after_chunk(rest, cfg, chunk, speech.last())
    }
}

/// The stretches of speech that those chunks complete.
pub open spec fn completed_by<T>(
    m: EndpointerModel<T>,
    cfg: VadEndpointerConfig,
    speech: Seq<bool>,
) -> Seq<SegmentModel<T>>
    decreases speech.len(),
{
    if speech.len() == 0 {
        seq![]
    } else {
        let before = after_chunks(m, cfg, speech.drop_last());
        let chunk = before.waiting.take(VAD_CHUNK as int);
        completed_by(m, cfg, speech.drop_last()) + completed(before, cfg, chunk, speech.last())
    }
}

// ---------------------------------------------------------------------------
// Laws
// ---------------------------------------------------------------------------

/// The state agrees with the samples that were judged: the stretch of speech that is
/// going on is the end of the stream, and so is what is kept for the next one.
pub open spec fn follows<T>(m: EndpointerModel<T>, stream: Seq<T>) -> bool {
    &&& m.seen == stream.len()
    &&& m.pre_roll.len() <= m.seen
    &&& if m.in_speech {
        0 <= m.start <= m.seen && m.segment == stream.subrange(m.start, m.seen)
    } else {
        m.pre_roll == stream.skip(m.seen - m.pre_roll.len())
    }
}

/// A stretch of speech is the part of the stream between its two positions: what is kept
/// from before it ends where it begins.
pub proof fn law_segment_is_part_of_stream<T>(
    m: EndpointerModel<T>,
    cfg: VadEndpointerConfig,
    stream: Seq<T>,
    chunk: Seq<T>,
    is_speech: bool,
)
    requires
        follows(m, stream),
    ensures
        follows(after_chunk(m, cfg, chunk, is_speech), stream + chunk),
        forall|i: int|
            0 <= i < completed(m, cfg, chunk, is_speech).len() ==> ({
                let segment = #[trigger] completed(m, cfg, chunk, is_speech)[i];
                &&& 0 <= segment.start <= segment.end == stream.len() + chunk.len()
                &&& segment.samples == (stream + chunk).subrange(segment.start, segment.end)
            }),
{
    let h = heard(m, cfg, chunk, is_speech);
    let all = stream + chunk;
    if h.in_speech {
        assert(h.segment =~= all.subrange(h.start, h.seen));
    } else {
        assert(h.pre_roll =~= all.skip(h.seen - h.pre_roll.len()));
    }
    let next = after_chunk(m, cfg, chunk, is_speech);
    if !next.in_speech && h.in_speech {
        assert(next.pre_roll =~= all.skip(next.seen as int));
    }
}

proof fn lemma_more_waiting<T>(
    m: EndpointerModel<T>,
    cfg: VadEndpointerConfig,
    speech: Seq<bool>,
    more: Seq<T>,
)
    requires
        speech.len() * VAD_CHUNK <= m.waiting.len(),
    ensures
        after_chunks(fed(m, more), cfg, speech) == fed(after_chunks(m, cfg, speech), more),
        completed_by(fed(m, more), cfg, speech) == completed_by(m, cfg, speech),
        after_chunks(m, cfg, speech).waiting == m.waiting.skip(speech.len() * VAD_CHUNK),
    decreases speech.len(),
{
    if speech.len() > 0 {
        let t = speech.drop_last();
        lemma_more_waiting(m, cfg, t, more);
        let before = after_chunks(m, cfg, t);
        let wide = after_chunks(fed(m, more), cfg, t);
        let n = VAD_CHUNK as int;
        assert(wide.waiting.take(n) =~= before.waiting.take(n));
        assert(wide.waiting.skip(n) =~= before.waiting.skip(n) + more);
        assert(before.waiting.skip(n) =~= m.waiting.skip(speech.len() * VAD_CHUNK));
        assert(after_chunks(fed(m, more), cfg, speech) =~= fed(
            after_chunks(m, cfg, speech),
            more,
        ));
    } else {
        assert(m.waiting.skip(0) =~= m.waiting);
    }
}

proof fn lemma_chunks_in_turn<T>(
    m: EndpointerModel<T>,
    cfg: VadEndpointerConfig,
    first: Seq<bool>,
    then: Seq<bool>,
)
    ensures
        after_chunks(m, cfg, first + then) == after_chunks(
            after_chunks(m, cfg, first),
            cfg,
            then,
        ),
        completed_by(m, cfg, first + then) == completed_by(m, cfg, first) + completed_by(
            after_chunks(m, cfg, first),
            cfg,
            then,
        ),
    decreases then.len(),
{
    if then.len() == 0 {
        assert(first + then =~= first);
        assert(completed_by(m, cfg, first) + seq![] =~= completed_by(m, cfg, first));
    } else {
        lemma_chunks_in_turn(m, cfg, first, then.drop_last());
        assert((first + then).drop_last() =~= first + then.drop_last());
        assert((first + then).last() == then.last());
        assert(completed_by(m, cfg, first + then) =~= completed_by(m, cfg, first)
            + completed_by(after_chunks(m, cfg, first), cfg, then));
    }
}

/// How the sound is cut up when it is fed makes no difference. Fed in two pieces, the same
/// chunks are judged, each the next samples of the stream and none left out, the same
/// stretches of speech come out, and the endpointer is left in the same state.
pub proof fn law_cuts_make_no_difference<T>(
    m: EndpointerModel<T>,
    cfg: VadEndpointerConfig,
    a: Seq<T>,
    b: Seq<T>,
    on_a: Seq<bool>,
    on_b: Seq<bool>,
)
    requires
        on_a.len() == fed(m, a).waiting.len() / (VAD_CHUNK as nat),
        on_b.len() == fed(after_chunks(fed(m, a), cfg, on_a), b).waiting.len() / (
        VAD_CHUNK as nat),
    ensures
        ({
            let whole = fed(m, a + b);
            let between = fed(after_chunks(fed(m, a), cfg, on_a), b);
            &&& after_chunks(whole, cfg, on_a + on_b) == after_chunks(between, cfg, on_b)
            &&& completed_by(whole, cfg, on_a + on_b) == completed_by(fed(m, a), cfg, on_a)
                + completed_by(between, cfg, on_b)
            &&& (on_a + on_b).len() == whole.waiting.len() / (VAD_CHUNK as nat)
            &&& forall|i: int|
                0 <= i < on_a.len() ==> #[trigger] nth_chunk(whole.waiting, i) == nth_chunk(
                    fed(m, a).waiting,
                    i,
                )
            &&& forall|i: int|
                0 <= i < on_b.len() ==> #[trigger] nth_chunk(between.waiting, i) == nth_chunk(
                    whole.waiting,
                    on_a.len() + i,
                )
        }),
{
    let start = fed(m, a);
    let whole = fed(m, a + b);
    let n = VAD_CHUNK as int;
    assert(on_a.len() * n <= start.waiting.len());
    lemma_more_waiting(start, cfg, on_a, b);
    assert(whole.waiting =~= fed(start, b).waiting);
    lemma_chunks_in_turn(whole, cfg, on_a, on_b);
    let between = fed(after_chunks(start, cfg, on_a), b);
    assert(between.waiting =~= whole.waiting.skip(on_a.len() * n));
    assert forall|i: int| 0 <= i < on_a.len() implies #[trigger] nth_chunk(whole.waiting, i)
        == nth_chunk(start.waiting, i) by {
        assert(nth_chunk(whole.waiting, i) =~= nth_chunk(start.waiting, i));
    }
    assert forall|i: int| 0 <= i < on_b.len() implies #[trigger] nth_chunk(between.waiting, i)
        == nth_chunk(whole.waiting, on_a.len() + i) by {
        assert(nth_chunk(between.waiting, i) =~= nth_chunk(whole.waiting, on_a.len() + i));
    }
}

/// The complete chunks of the samples that wait, in order.
pub open spec fn chunks_of<T>(waiting: Seq<T>) -> Seq<Seq<T>> {
    Seq::new(waiting.len() / (VAD_CHUNK as nat), |i: int| nth_chunk(waiting, i))
}

/// What `judge` says of each chunk that can be judged. It goes by the chunk and by all chunks
/// before it, the first of which are `earlier`.
pub open spec fn judgements<T>(
    judge: spec_fn(Seq<Seq<T>>, Seq<T>) -> bool,
    earlier: Seq<Seq<T>>,
    waiting: Seq<T>,
) -> Seq<bool> {
    let chunks = chunks_of(waiting);
    Seq::new(chunks.len(), |i: int| judge(earlier + chunks.take(i), chunks[i]))
}

/// With one way of judging, fed in two pieces or in one: the same chunks are judged, in the
/// same order and with the same result, the same stretches of speech come out, and the
/// endpointer is left in the same state.
pub proof fn law_cuts_make_no_difference_to_a_judge<T>(
    m: EndpointerModel<T>,
    cfg: VadEndpointerConfig,
    judge: spec_fn(Seq<Seq<T>>, Seq<T>) -> bool,
    earlier: Seq<Seq<T>>,
    a: Seq<T>,
    b: Seq<T>,
)
    ensures
        ({
            let whole = fed(m, a + b);
            let start = fed(m, a);
            let on_a = judgements(judge, earlier, start.waiting);
            let between = fed(after_chunks(start, cfg, on_a), b);
            let on_b = judgements(judge, earlier + chunks_of(start.waiting), between.waiting);
            let on_both = judgements(judge, earlier, whole.waiting);
            &&& chunks_of(whole.waiting) == chunks_of(start.waiting) + chunks_of(between.waiting)
            &&& on_both == on_a + on_b
            &&& on_both.len() == (m.waiting.len() + a.len() + b.len()) / (VAD_CHUNK as nat)
            &&& after_chunks(whole, cfg, on_both) == after_chunks(between, cfg, on_b)
            &&& completed_by(whole, cfg, on_both) == completed_by(start, cfg, on_a)
                + completed_by(between, cfg, on_b)
        }),
{
    let whole = fed(m, a + b);
    let start = fed(m, a);
    let on_a = judgements(judge, earlier, start.waiting);
    let between = fed(after_chunks(start, cfg, on_a), b);
    let later = earlier + chunks_of(start.waiting);
    let on_b = judgements(judge, later, between.waiting);
    let on_both = judgements(judge, earlier, whole.waiting);
    law_cuts_make_no_difference(m, cfg, a, b, on_a, on_b);
    let first = chunks_of(start.waiting);
    let second = chunks_of(between.waiting);
    let all = chunks_of(whole.waiting);
    assert forall|i: int| 0 <= i < all.len() implies all[i] == (first + second)[i] by {
        if i < first.len() {
            assert(nth_chunk(whole.waiting, i) == nth_chunk(start.waiting, i));
        } else {
            let k = i - first.len();
            assert(nth_chunk(between.waiting, k) == nth_chunk(whole.waiting, on_a.len() + k));
        }
    }
    assert(all =~= first + second);
    assert forall|i: int| 0 <= i < all.len() implies on_both[i] == (on_a + on_b)[i] by {
        if i < first.len() {
            assert(all.take(i) =~= first.take(i));
        } else {
            let k = i - first.len();
            assert(earlier + all.take(i) =~= later + second.take(k));
        }
    }
    assert(on_both =~= on_a + on_b);
}

/// A stretch of speech is the part of the stream between its two positions.
pub open spec fn lies_in<T>(segment: SegmentModel<T>, stream: Seq<T>) -> bool {
    &&& 0 <= segment.start <= segment.end <= stream.len()
    &&& segment.samples == stream.subrange(segment.start, segment.end)
}

/// The place at or after which the next stretch of speech that is handed out begins.
pub open spec fn earliest_start<T>(m: EndpointerModel<T>) -> int {
    if m.in_speech {
        m.start
    } else {
        m.seen - m.pre_roll.len()
    }
}

/// However many chunks are judged, the stretches of speech that are handed out are parts of
/// the stream, in its order, and no two of them overlap; nor do those that come later, or the
/// one that is going on when the stream ends.
pub proof fn law_segments_do_not_overlap<T>(
    m: EndpointerModel<T>,
    cfg: VadEndpointerConfig,
    stream: Seq<T>,
    speech: Seq<bool>,
)
    requires
        follows(m, stream),
        speech.len() * VAD_CHUNK <= m.waiting.len(),
    ensures
        ({
            let judged = stream + m.waiting.take(speech.len() * VAD_CHUNK);
            let next = after_chunks(m, cfg, speech);
            let out = completed_by(m, cfg, speech);
            &&& follows(next, judged)
            &&& next.in_speech ==> lies_in(current(next), judged)
            &&& earliest_start(m) <= earliest_start(next)
            &&& forall|i: int|
                0 <= i < out.len() ==> {
                    &&& lies_in(#[trigger] out[i], judged)
                    &&& earliest_start(m) <= out[i].start
                    &&& out[i].end <= earliest_start(next)
                }
            &&& forall|i: int, j: int|
                0 <= i < j < out.len() ==> (#[trigger] out[i]).end <= (#[trigger] out[j]).start
        }),
    decreases speech.len(),
{
    if speech.len() == 0 {
        assert(stream + m.waiting.take(0) =~= stream);
    } else {
        let t = speech.drop_last();
        law_segments_do_not_overlap(m, cfg, stream, t);
        lemma_more_waiting(m, cfg, t, seq![]);
        let before = after_chunks(m, cfg, t);
        let n = VAD_CHUNK as int;
        let chunk = before.waiting.take(n);
        let rest = EndpointerModel { waiting: before.waiting.skip(n), ..before };
        let earlier = stream + m.waiting.take(t.len() * VAD_CHUNK);
        let judged = stream + m.waiting.take(speech.len() * VAD_CHUNK);
        assert(judged =~= earlier + chunk);
        law_segment_is_part_of_stream(before, cfg, earlier, chunk, speech.last());
        law_segment_is_part_of_stream(rest, cfg, earlier, chunk, speech.last());
        let old_out = completed_by(m, cfg, t);
        let new_out = completed(before, cfg, chunk, speech.last());
        let out = completed_by(m, cfg, speech);
        assert(out == old_out + new_out);
        assert forall|i: int| 0 <= i < out.len() implies {
            &&& lies_in(#[trigger] out[i], judged)
            &&& earliest_start(m) <= out[i].start
            &&& out[i].end <= earliest_start(after_chunks(m, cfg, speech))
        } by {
            if i < old_out.len() {
                assert(out[i] == old_out[i]);
                assert(judged.subrange(out[i].start, out[i].end) =~= earlier.subrange(
                    out[i].start,
                    out[i].end,
                ));
            } else {
                assert(out[i] == new_out[i - old_out.len()]);
            }
        }
        assert forall|i: int, j: int| 0 <= i < j < out.len() implies (#[trigger] out[i]).end
            <= (#[trigger] out[j]).start by {
            assert(out[i] == old_out[i]);
            if j < old_out.len() {
                assert(out[j] == old_out[j]);
            } else {
                assert(out[j] == new_out[j - old_out.len()]);
            }
        }
    }
}

/// A stretch of speech is handed out as soon as it is too long: it exceeds the limit by
/// less than one chunk, or it is a single chunk with its padding.
pub proof fn law_segments_are_bounded<T>(
    m: EndpointerModel<T>,
    cfg: VadEndpointerConfig,
    chunk: Seq<T>,
    is_speech: bool,
)
    requires
        m.in_speech ==> m.segment.len() < cfg.max_segment_samples,
        m.pre_roll.len() <= cfg.speech_pad_samples,
    ensures
        ({
            let next = after_chunk(m, cfg, chunk, is_speech);
            &&& next.in_speech ==> next.segment.len() < cfg.max_segment_samples
            &&& next.pre_roll.len() <= cfg.speech_pad_samples
        }),
        forall|i: int|
            0 <= i < completed(m, cfg, chunk, is_speech).len() ==> ({
                let n = (#[trigger] completed(m, cfg, chunk, is_speech)[i]).samples.len();
                ||| n < cfg.max_segment_samples + chunk.len()
                ||| n <= cfg.speech_pad_samples + chunk.len()
            }),
{
}

/// A stream without speech has no stretches of speech, however long it is.
pub proof fn law_silence_yields_nothing<T>(
    m: EndpointerModel<T>,
    cfg: VadEndpointerConfig,
    speech: Seq<bool>,
)
    requires
        !m.in_speech,
        forall|i: int| 0 <= i < speech.len() ==> !#[trigger] speech[i],
    ensures
        completed_by(m, cfg, speech) == Seq::<SegmentModel<T>>::empty(),
        !after_chunks(m, cfg, speech).in_speech,
    decreases speech.len(),
{
    if speech.len() > 0 {
        let t = speech.drop_last();
        assert forall|i: int| 0 <= i < t.len() implies !#[trigger] t[i] by {
            assert(t[i] == speech[i]);
        }
        law_silence_yields_nothing(m, cfg, t);
        assert(!speech.last());
        assert(completed_by(m, cfg, speech) =~= seq![]);
    }
}

impl<T: Copy> VadEndpointer<T> {
    pub closed spec fn config(self) -> VadEndpointerConfig {
        self.cfg
    }

    pub closed spec fn model(self) -> EndpointerModel<T> {
        EndpointerModel {
            in_speech: self.in_speech,
            start: self.speech_start_sample as int,
            segment: self.current_segment@,
            silence: self.silence_run as int,
            seen: self.total_seen as int,
            waiting: self.chunk_buffer@,
            pre_roll: self.pre_roll@,
        }
    }

    /// The silence and what is kept from before a stretch of speech lie within what was
    /// seen, and the padding is a length that a list can have.
    pub closed spec fn well_formed(self) -> bool {
        &&& self.cfg.speech_pad_samples <= i64::MAX
        &&& self.silence_run <= self.total_seen
        &&& self.pre_roll@.len() <= self.total_seen
    }

    pub fn new(cfg: VadEndpointerConfig) -> (r: Self)
        requires
            cfg.speech_pad_samples <= i64::MAX,
        ensures
            r.well_formed(),
            r.config() == cfg,
            r.model() == (EndpointerModel {
                in_speech: false,
                start: 0,
                segment: Seq::<T>::empty(),
                silence: 0,
                seen: 0,
                waiting: Seq::<T>::empty(),
                pre_roll: Seq::<T>::empty(),
            }),
    {
        VadEndpointer {
            cfg,
            in_speech: false,
            speech_start_sample: 0,
            current_segment: Vec::new(),
            silence_run: 0,
            total_seen: 0,
            chunk_buffer: Vec::new(),
            pre_roll: Vec::new(),
        }
    }

    /// The chunks that can be judged once these samples have been fed.
    pub fn chunks_with(&self, samples: &Vec<T>) -> (r: Vec<Vec<T>>)
        ensures
            r@.len() == fed(self.model(), samples@).waiting.len() / (VAD_CHUNK as nat),
            forall|i: int|
                0 <= i < r@.len() ==> (#[trigger] r@[i])@ == nth_chunk(
                    fed(self.model(), samples@).waiting,
                    i,
                ),
    {
        let ghost all = self.chunk_buffer@ + samples@;
        let mut out: Vec<Vec<T>> = Vec::new();
        let mut chunk: Vec<T> = Vec::new();
        let mut i: usize = 0;
        assert(chunk@ =~= all.subrange(0, 0));
        while i < self.chunk_buffer.len()
            invariant
                all == self.chunk_buffer@ + samples@,
                i <= self.chunk_buffer@.len(),
                is_chunking(all, i as int, out@, chunk@),
            decreases self.chunk_buffer@.len() - i,
        {
            add_to_chunks(Ghost(all), Ghost(i as int), &mut out, &mut chunk, self.chunk_buffer[i]);
            i = i + 1;
        }
        let mut k: usize = 0;
        while k < samples.len()
            invariant
                all == self.chunk_buffer@ + samples@,
                k <= samples@.len(),
                is_chunking(all, self.chunk_buffer@.len() + k, out@, chunk@),
            decreases samples@.len() - k,
        {
            add_to_chunks(
                Ghost(all),
                Ghost(self.chunk_buffer@.len() + k),
                &mut out,
                &mut chunk,
                samples[k],
            );
            k = k + 1;
        }
        out
    }

    /// Feeds samples, together with the judgement on each chunk that can then be judged.
    /// Hands out the stretches of speech that are complete.
    pub fn feed(&mut self, samples: &Vec<T>, speech: &Vec<bool>) -> (r: Vec<VadSegment<T>>)
        requires
            old(self).well_formed(),
            speech@.len() == fed(old(self).model(), samples@).waiting.len() / (
            VAD_CHUNK as nat),
            old(self).model().seen + old(self).model().waiting.len() + samples@.len() <= u64::MAX,
        ensures
            final(self).well_formed(),
            final(self).config() == old(self).config(),
            ({
                let start = fed(old(self).model(), samples@);
                &&& final(self).model() == after_chunks(start, old(self).config(), speech@)
                &&& segment_views(r@) == completed_by(start, old(self).config(), speech@)
            }),
    {
        let mut out: Vec<VadSegment<T>> = Vec::new();
        let ghost start = fed(self.model(), samples@);
        let ghost all = start.waiting;
        let ghost first = start.seen;
        for k in 0..samples.len()
            invariant
                self.model() == fed(old(self).model(), samples@.take(k as int)),
                self.config() == old(self).config(),
                self.well_formed(),
        {
            self.chunk_buffer.push(samples[k]);
            assert(self.chunk_buffer@ =~= old(self).model().waiting + samples@.take(k + 1));
        }
        assert(samples@.take(samples@.len() as int) =~= samples@);
        assert(self.model() == start);
        assert(speech@.take(0) =~= seq![]);
        assert(segment_views(out@) =~= seq![]);
        for i in 0..speech.len()
            invariant
                self.well_formed(),
                self.config() == old(self).config(),
                all == start.waiting,
                first == start.seen,
                speech@.len() == all.len() / (VAD_CHUNK as nat),
                first + all.len() <= u64::MAX,
                self.model() == after_chunks(start, old(self).config(), speech@.take(i as int)),
                segment_views(out@) == completed_by(
                    start,
                    old(self).config(),
                    speech@.take(i as int),
                ),
                self.model().waiting == all.skip(i * VAD_CHUNK),
                self.model().seen == first + i * VAD_CHUNK,
        {
            assert(speech@.take(i + 1).drop_last() =~= speech@.take(i as int));
            assert((i + 1) * VAD_CHUNK <= all.len()) by (nonlinear_arith)
                requires
                    i < all.len() / 512,
                    VAD_CHUNK == 512,
            ;
            let ghost before = self.model();
            let rest = self.chunk_buffer.split_off(VAD_CHUNK);
            let mut chunk = rest;
            std::mem::swap(&mut chunk, &mut self.chunk_buffer);
            assert(chunk@ =~= before.waiting.take(VAD_CHUNK as int));
            assert(self.chunk_buffer@ =~= before.waiting.skip(VAD_CHUNK as int));
            assert(before.waiting.skip(VAD_CHUNK as int) =~= all.skip((i + 1) * VAD_CHUNK));
            let ghost views = segment_views(out@);
            let ghost rest_model = self.model();
            assert(rest_model == (EndpointerModel {
                waiting: before.waiting.skip(VAD_CHUNK as int),
                ..before
            }));
            assert(heard(rest_model, self.config(), chunk@, speech@[i as int]) == (
            EndpointerModel {
                waiting: rest_model.waiting,
                ..heard(before, self.config(), chunk@, speech@[i as int])
            }));
            match self.process_chunk(&chunk, speech[i]) {
                Some(segment) => {
                    out.push(segment);
                    assert(segment_views(out@) =~= views.push(segment@));
                },
                None => {},
            }
            assert(segment_views(out@) =~= completed_by(
                start,
                old(self).config(),
                speech@.take(i + 1),
            ));
        }
        assert(speech@.take(speech@.len() as int) =~= speech@);
        out
    }

    /// Ends the stream: hands out the stretch of speech that is going on, and drops the
    /// samples that were not judged.
    pub fn flush(&mut self) -> (r: Option<VadSegment<T>>)
        requires
            old(self).well_formed(),
        ensures
            final(self).well_formed(),
            final(self).config() == old(self).config(),
            ({
                let m = old(self).model();
                let due = m.in_speech && m.segment.len() > 0;
                &&& r is Some <==> due
                &&& r matches Some(segment) ==> segment@ == current(m)
                &&& final(self).model() == (EndpointerModel {
                    waiting: Seq::<T>::empty(),
                    ..if due {
                        after_end(m)
                    } else {
                        m
                    }
                })
            }),
    {
        let mut out: Option<VadSegment<T>> = None;
        if self.in_speech && self.current_segment.len() > 0 {
            out = Some(self.finalize_segment());
        }
        self.chunk_buffer.clear();
        out
    }

    /// Takes the judgement on a chunk. Hands out the stretch of speech that it completes.
    fn process_chunk(&mut self, chunk: &Vec<T>, is_speech: bool) -> (r: Option<VadSegment<T>>)
        requires
            old(self).well_formed(),
            old(self).model().seen + chunk@.len() <= u64::MAX,
        ensures
            final(self).well_formed(),
            final(self).config() == old(self).config(),
            final(self).model() == after_chunk(
                old(self).model(),
                old(self).config(),
                chunk@,
                is_speech,
            ),
            ({
                let h = heard(old(self).model(), old(self).config(), chunk@, is_speech);
                &&& r is Some <==> ends(h, old(self).config())
                &&& r matches Some(segment) ==> segment@ == current(h)
            }),
    {
        let ghost h = heard(self.model(), self.config(), chunk@, is_speech);
        let pad: u64 = self.cfg.speech_pad_samples;
        let n: u64 = chunk.len() as u64;
        if !self.in_speech {
            if is_speech {
                self.in_speech = true;
                self.speech_start_sample = self.total_seen - self.pre_roll.len() as u64;
                let mut segment: Vec<T> = Vec::new();
                extend(&mut segment, &self.pre_roll);
                extend(&mut segment, chunk);
                assert(segment@ =~= self.pre_roll@ + chunk@);
                self.current_segment = segment;
                self.silence_run = 0;
            } else {
                extend(&mut self.pre_roll, chunk);
                if self.pre_roll.len() as u64 > pad {
                    let excess: usize = self.pre_roll.len() - pad as usize;
                    let ghost all = self.pre_roll@;
                    self.pre_roll = self.pre_roll.split_off(excess);
                    assert(self.pre_roll@ =~= last_items(all, pad as int));
                }
            }
        } else {
            extend(&mut self.current_segment, chunk);
            if is_speech {
                self.silence_run = 0;
            } else {
                self.silence_run = self.silence_run + n;
            }
        }
        self.total_seen = self.total_seen + n;
        assert(self.model() == h);
        if self.in_speech && (self.current_segment.len() as u64 >= self.cfg.max_segment_samples
            || self.silence_run >= self.cfg.min_silence_samples) {
            Some(self.finalize_segment())
        } else {
            None
        }
    }

    /// Ends the stretch of speech that is going on and hands it out.
    fn finalize_segment(&mut self) -> (r: VadSegment<T>)
        requires
            old(self).well_formed(),
        ensures
            final(self).well_formed(),
            final(self).config() == old(self).config(),
            final(self).model() == after_end(old(self).model()),
            r@ == current(old(self).model()),
    {
        let mut samples: Vec<T> = Vec::new();
        std::mem::swap(&mut samples, &mut self.current_segment);
        self.in_speech = false;
        self.silence_run = 0;
        self.pre_roll.clear();
        VadSegment {
            samples,
            start_sample: self.speech_start_sample,
            end_sample: self.total_seen,
        }
    }
}

fn extend<T: Copy>(out: &mut Vec<T>, more: &Vec<T>)
    ensures
        final(out)@ == old(out)@ + more@,
{
    let ghost before = out@;
    for i in 0..more.len()
        invariant
            out@ == before + more@.take(i as int),
    {
        out.push(more[i]);
        assert(out@ =~= before + more@.take(i + 1));
    }
    assert(more@.take(more@.len() as int) =~= more@);
}

/// `chunks` holds the complete chunks of the first `n` items of `all`, and `rest` the
/// items after them.
spec fn is_chunking<T>(all: Seq<T>, n: int, chunks: Seq<Vec<T>>, rest: Seq<T>) -> bool {
    &&& 0 <= n <= all.len()
    &&& rest.len() < VAD_CHUNK
    &&& chunks.len() * VAD_CHUNK + rest.len() == n
    &&& rest == all.subrange(chunks.len() * VAD_CHUNK, n)
    &&& forall|i: int|
        0 <= i < chunks.len() ==> (#[trigger] chunks[i])@ == all.subrange(
            i * VAD_CHUNK,
            i * VAD_CHUNK + VAD_CHUNK,
        )
}

fn add_to_chunks<T>(
    Ghost(all): Ghost<Seq<T>>,
    Ghost(n): Ghost<int>,
    out: &mut Vec<Vec<T>>,
    chunk: &mut Vec<T>,
    item: T,
)
    requires
        is_chunking(all, n, old(out)@, old(chunk)@),
        n < all.len(),
        all[n] == item,
    ensures
        is_chunking(all, n + 1, final(out)@, final(chunk)@),
{
    let ghost start = out@.len() * VAD_CHUNK;
    chunk.push(item);
    assert(chunk@ =~= all.subrange(start, n + 1));
    if chunk.len() == VAD_CHUNK {
        let mut full: Vec<T> = Vec::new();
        std::mem::swap(&mut full, chunk);
        out.push(full);
        assert((out@.len() - 1) * VAD_CHUNK + VAD_CHUNK == out@.len() * VAD_CHUNK)
            by (nonlinear_arith);
        assert(chunk@ =~= all.subrange(out@.len() * VAD_CHUNK, n + 1));
    }
}

// ---------------------------------------------------------------------------
// The input of the model
// ---------------------------------------------------------------------------

/// What goes before the chunks: the model that judges them sees each together with the end
/// of the one before.
pub struct SileroContext<T> {
    context: Vec<T>,
}

impl<T: Copy> SileroContext<T> {
    pub closed spec fn held(self) -> Seq<T> {
        self.context@
    }

    /// The context at the start of a stream, filled with `zero`.
    pub fn new(zero: T) -> (r: Self)
        ensures
            r.held() == Seq::new(VAD_CONTEXT as nat, |i: int| zero),
    {
        let mut context: Vec<T> = Vec::new();
        for i in 0..VAD_CONTEXT
            invariant
                context@.len() == i,
                forall|k: int| 0 <= k < i ==> context@[k] == zero,
        {
            context.push(zero);
        }
        assert(context@ =~= Seq::new(VAD_CONTEXT as nat, |i: int| zero));
        SileroContext { context }
    }

    /// The input for a chunk: the context followed by the chunk, whose end is the next
    /// context. A chunk of another length is refused.
    pub fn input_for(&mut self, chunk: &Vec<T>) -> (r: Result<Vec<T>, String>)
        ensures
            match r {
                Ok(input) => chunk@.len() == VAD_CHUNK && input@ == old(self).held() + chunk@
                    && final(self).held() == chunk@.skip(VAD_CHUNK - VAD_CONTEXT),
                Err(m) => chunk@.len() != VAD_CHUNK && *final(self) == *old(self) && m@
                    == "vad chunk must be 512 samples, got "@ + text::decimal(chunk@.len()),
            },
    {
        if chunk.len() != VAD_CHUNK {
            let n = text::to_decimal(chunk.len() as u64);
            return Err(text::concat2("vad chunk must be 512 samples, got ", n.as_str()));
        }
        let mut input: Vec<T> = Vec::new();
        extend(&mut input, &self.context);
        extend(&mut input, chunk);
        let mut context: Vec<T> = Vec::new();
        for i in VAD_CHUNK - VAD_CONTEXT..VAD_CHUNK
            invariant
                chunk@.len() == VAD_CHUNK,
                context@ == chunk@.subrange(VAD_CHUNK - VAD_CONTEXT, i as int),
        {
            context.push(chunk[i]);
            assert(context@ =~= chunk@.subrange(VAD_CHUNK - VAD_CONTEXT, i + 1));
        }
        assert(context@ =~= chunk@.skip(VAD_CHUNK - VAD_CONTEXT));
        self.context = context;
        Ok(input)
    }
}

// ---------------------------------------------------------------------------
// Pauses
// ---------------------------------------------------------------------------

/// The last `k` judgements are all silence.
pub open spec fn ends_in_silence(speech: Seq<bool>, k: int) -> bool {
    &&& 0 <= k <= speech.len()
    &&& forall|i: int| speech.len() - k <= i < speech.len() ==> !#[trigger] speech[i]
}

/// The length of the silence at the end is that of the silent chunks in a row there.
proof fn lemma_silence_is_consecutive<T>(
    m: EndpointerModel<T>,
    cfg: VadEndpointerConfig,
    speech: Seq<bool>,
)
    requires
        speech.len() * VAD_CHUNK <= m.waiting.len(),
        speech.len() > 0,
        !m.in_speech || speech[0],
    ensures
        ({
            let n = after_chunks(m, cfg, speech);
            n.in_speech ==> exists|k: int|
                #[trigger] ends_in_silence(speech, k) && n.silence == k * VAD_CHUNK && k
                    < speech.len() && speech[speech.len() - k - 1]
        }),
        ({
            let b = after_chunks(m, cfg, speech.drop_last());
            let h = heard(b, cfg, b.waiting.take(VAD_CHUNK as int), speech.last());
            h.in_speech ==> exists|k: int|
                #[trigger] ends_in_silence(speech, k) && h.silence == k * VAD_CHUNK && k
                    < speech.len() && speech[speech.len() - k - 1]
        }),
    decreases speech.len(),
{
    let t = speech.drop_last();
    let b = after_chunks(m, cfg, t);
    lemma_more_waiting(m, cfg, t, seq![]);
    let chunk = b.waiting.take(VAD_CHUNK as int);
    assert(chunk.len() == VAD_CHUNK);
    let h = heard(b, cfg, chunk, speech.last());
    let n = after_chunks(m, cfg, speech);
    assert(n.in_speech ==> h.in_speech && n.silence == h.silence);
    if h.in_speech {
        if speech.last() {
            assert(ends_in_silence(speech, 0));
            assert(h.silence == 0);
        } else {
            assert(b.in_speech);
            if t.len() == 0 {
                assert(b == m);
                assert(false);
            }
            lemma_silence_is_consecutive(m, cfg, t);
            let k = choose|k: int|
                #[trigger] ends_in_silence(t, k) && b.silence == k * VAD_CHUNK && k < t.len()
                    && t[t.len() - k - 1];
            assert forall|i: int| speech.len() - (k + 1) <= i < speech.len() implies !(
            #[trigger] speech[i]) by {
                if i < t.len() {
                    assert(t[i] == speech[i]);
                }
            }
            assert(ends_in_silence(speech, k + 1));
            assert(h.silence == (k + 1) * VAD_CHUNK);
            assert(speech[speech.len() - (k + 1) - 1] == t[t.len() - k - 1]);
        }
    }
}

/// A stretch of speech that is handed out before it has reached its greatest length ends with
/// silent chunks in a row, as many as the settings ask for at least. So what ends it is one
/// pause, not several short ones, and never a chunk of speech.
pub proof fn law_a_stretch_ends_with_a_long_pause<T>(
    m: EndpointerModel<T>,
    cfg: VadEndpointerConfig,
    speech: Seq<bool>,
)
    requires
        speech.len() * VAD_CHUNK <= m.waiting.len(),
        speech.len() > 0,
        !m.in_speech || speech[0],
        completed_by(m, cfg, speech).len() > completed_by(m, cfg, speech.drop_last()).len(),
        completed_by(m, cfg, speech).last().samples.len() < cfg.max_segment_samples,
    ensures
        exists|k: int|
            #[trigger] ends_in_silence(speech, k) && k * VAD_CHUNK >= cfg.min_silence_samples,
        cfg.min_silence_samples > 0 ==> !speech.last(),
{
    lemma_silence_is_consecutive(m, cfg, speech);
    let b = after_chunks(m, cfg, speech.drop_last());
    let chunk = b.waiting.take(VAD_CHUNK as int);
    let h = heard(b, cfg, chunk, speech.last());
    assert(ends(h, cfg));
    let k = choose|k: int|
        #[trigger] ends_in_silence(speech, k) && h.silence == k * VAD_CHUNK && k < speech.len()
            && speech[speech.len() - k - 1];
    assert(completed_by(m, cfg, speech).last() == current(h));
    if cfg.min_silence_samples > 0 {
        assert(k > 0);
        assert(!speech[speech.len() - 1]);
    }
}

/// Pauses that are shorter than the settings ask for do not split a stretch of speech,
/// however many there are: while it stays below its greatest length it goes on, from where it
/// began, over all that was said and the pauses between.
pub proof fn law_short_pauses_do_not_split<T>(
    m: EndpointerModel<T>,
    cfg: VadEndpointerConfig,
    speech: Seq<bool>,
)
    requires
        speech.len() * VAD_CHUNK <= m.waiting.len(),
        speech.len() > 0,
        speech[0],
        cfg.min_silence_samples > 0,
        forall|from: int, to: int|
            0 <= from <= to <= speech.len() && (forall|i: int|
                from <= i < to ==> !#[trigger] speech[i]) ==> #[trigger] ((to - from) * VAD_CHUNK)
                < cfg.min_silence_samples,
        (if m.in_speech {
            m.segment.len()
        } else {
            m.pre_roll.len()
        }) + speech.len() * VAD_CHUNK < cfg.max_segment_samples,
    ensures
        completed_by(m, cfg, speech) == Seq::<SegmentModel<T>>::empty(),
        ({
            let n = after_chunks(m, cfg, speech);
            &&& n.in_speech
            &&& n.start == earliest_start(m)
            &&& n.seen == m.seen + speech.len() * VAD_CHUNK
            &&& n.segment == (if m.in_speech {
                m.segment
            } else {
                m.pre_roll
            }) + m.waiting.take(speech.len() * VAD_CHUNK)
        }),
    decreases speech.len(),
{
    let t = speech.drop_last();
    let b = after_chunks(m, cfg, t);
    lemma_more_waiting(m, cfg, t, seq![]);
    let chunk = b.waiting.take(VAD_CHUNK as int);
    let h = heard(b, cfg, chunk, speech.last());
    let head = if m.in_speech {
        m.segment
    } else {
        m.pre_roll
    };
    if t.len() > 0 {
        assert(t[0] == speech[0]);
        assert forall|from: int, to: int|
            0 <= from <= to <= t.len() && (forall|i: int|
                from <= i < to ==> !#[trigger] t[i]) implies #[trigger] ((to - from) * VAD_CHUNK)
            < cfg.min_silence_samples by {
            assert forall|i: int| from <= i < to implies !#[trigger] speech[i] by {
                assert(t[i] == speech[i]);
            }
        }
        law_short_pauses_do_not_split(m, cfg, t);
    } else {
        assert(b == m);
        assert(m.waiting.take(0) =~= seq![]);
    }
    assert(m.waiting.take(speech.len() * VAD_CHUNK) =~= m.waiting.take(t.len() * VAD_CHUNK)
        + chunk);
    assert(h.segment =~= head + m.waiting.take(speech.len() * VAD_CHUNK));
    lemma_silence_is_consecutive(m, cfg, speech);
    let k = choose|k: int|
        #[trigger] ends_in_silence(speech, k) && h.silence == k * VAD_CHUNK && k < speech.len()
            && speech[speech.len() - k - 1];
    assert((speech.len() - (speech.len() - k)) * VAD_CHUNK < cfg.min_silence_samples);
    assert(!ends(h, cfg));
    assert(completed_by(m, cfg, speech) =~= seq![]);
}

/// Silence of the length that the settings ask for ends a stretch of speech that is going on,
/// with one stretch handed out.
pub proof fn law_a_long_pause_ends_a_stretch<T>(
    m: EndpointerModel<T>,
    cfg: VadEndpointerConfig,
    speech: Seq<bool>,
)
    requires
        speech.len() * VAD_CHUNK <= m.waiting.len(),
        m.in_speech,
        m.silence >= 0,
        speech.len() > 0,
        ends_in_silence(speech, speech.len() as int),
        speech.len() * VAD_CHUNK >= cfg.min_silence_samples,
    ensures
        !after_chunks(m, cfg, speech).in_speech,
        completed_by(m, cfg, speech).len() == 1,
        completed_by(m, cfg, speech)[0].start == m.start,
{
    lemma_silent_chunks(m, cfg, speech);
}

proof fn lemma_silent_chunks<T>(
    m: EndpointerModel<T>,
    cfg: VadEndpointerConfig,
    speech: Seq<bool>,
)
    requires
        speech.len() * VAD_CHUNK <= m.waiting.len(),
        m.in_speech,
        m.silence >= 0,
        ends_in_silence(speech, speech.len() as int),
    ensures
        ({
            let n = after_chunks(m, cfg, speech);
            let out = completed_by(m, cfg, speech);
            &&& n.in_speech ==> {
                &&& n.silence == m.silence + speech.len() * VAD_CHUNK
                &&& n.start == m.start
                &&& out.len() == 0
                &&& speech.len() > 0 ==> n.silence < cfg.min_silence_samples
            }
            &&& !n.in_speech ==> out.len() == 1 && out[0].start == m.start
        }),
    decreases speech.len(),
{
    if speech.len() > 0 {
        let t = speech.drop_last();
        assert forall|i: int| 0 <= i < t.len() implies !#[trigger] t[i] by {
            assert(t[i] == speech[i]);
        }
        lemma_silent_chunks(m, cfg, t);
        lemma_more_waiting(m, cfg, t, seq![]);
        let b = after_chunks(m, cfg, t);
        let chunk = b.waiting.take(VAD_CHUNK as int);
        assert(!speech[speech.len() - 1]);
    }
}

/// A stretch of speech begins before its first chunk by the padding, as far as there was sound
/// since the last stretch: after `silent.len()` silent chunks a chunk of speech begins one.
pub proof fn law_a_stretch_begins_with_its_padding<T>(
    m: EndpointerModel<T>,
    cfg: VadEndpointerConfig,
    silent: Seq<bool>,
)
    requires
        (silent.len() + 1) * VAD_CHUNK <= m.waiting.len(),
        !m.in_speech,
        m.pre_roll.len() <= cfg.speech_pad_samples,
        ends_in_silence(silent, silent.len() as int),
    ensures
        ({
            let quiet = after_chunks(m, cfg, silent);
            let all = m.waiting.skip(silent.len() * VAD_CHUNK);
            let h = heard(quiet, cfg, all.take(VAD_CHUNK as int), true);
            let heard_before = m.pre_roll.len() + silent.len() * VAD_CHUNK;
            let pad = if heard_before <= cfg.speech_pad_samples {
                heard_before
            } else {
                cfg.speech_pad_samples as int
            };
            &&& !quiet.in_speech
            &&& completed_by(m, cfg, silent) == Seq::<SegmentModel<T>>::empty()
            &&& h.in_speech
            &&& h.start == m.seen + silent.len() * VAD_CHUNK - pad
            &&& h.segment.len() == pad + VAD_CHUNK
        }),
{
    lemma_quiet_chunks(m, cfg, silent);
    lemma_more_waiting(m, cfg, silent, seq![]);
}

proof fn lemma_quiet_chunks<T>(
    m: EndpointerModel<T>,
    cfg: VadEndpointerConfig,
    silent: Seq<bool>,
)
    requires
        silent.len() * VAD_CHUNK <= m.waiting.len(),
        !m.in_speech,
        m.pre_roll.len() <= cfg.speech_pad_samples,
        ends_in_silence(silent, silent.len() as int),
    ensures
        ({
            let quiet = after_chunks(m, cfg, silent);
            let before = m.pre_roll.len() + silent.len() * VAD_CHUNK;
            &&& !quiet.in_speech
            &&& quiet.seen == m.seen + silent.len() * VAD_CHUNK
            &&& quiet.pre_roll.len() == if before <= cfg.speech_pad_samples {
                before
            } else {
                cfg.speech_pad_samples as int
            }
            &&& completed_by(m, cfg, silent) == Seq::<SegmentModel<T>>::empty()
        }),
    decreases silent.len(),
{
    if silent.len() > 0 {
        let t = silent.drop_last();
        assert forall|i: int| 0 <= i < t.len() implies !#[trigger] t[i] by {
            assert(t[i] == silent[i]);
        }
        lemma_quiet_chunks(m, cfg, t);
        lemma_more_waiting(m, cfg, t, seq![]);
        assert(!silent[silent.len() - 1]);
        assert(completed_by(m, cfg, silent) =~= seq![]);
    }
}

} // verus!
