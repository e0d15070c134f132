//! The shape of the features that the recognition model takes.
//!
//! The features of a frame are values of some type `T`; how they are computed from samples
//! is no matter here.
use vstd::prelude::*;

use crate::text;

verus! {

/// The samples of a frame: 25 milliseconds.
pub const FRAME_LEN: usize = 400;

/// The distance between two frames: 10 milliseconds.
pub const FRAME_SHIFT: usize = 160;

/// The features of a frame.
pub const NUM_MEL: usize = 80;

/// The frames that are put together.
pub const LFR_M: usize = 7;

/// The distance between two groups of frames.
pub const LFR_N: usize = 6;

/// The features of a group of frames.
pub const FEAT_DIM: usize = 560;

/// The number of frames that `n` samples have.
pub open spec fn frames_in(n: nat) -> nat {
    if n < FRAME_LEN {
        0
    } else {
        ((n - FRAME_LEN) / FRAME_SHIFT as int + 1) as nat
    }
}

/// The number of frames that `n` samples have. Each lies within the samples.
pub fn frame_count(n: usize) -> (r: usize)
    ensures
        r == frames_in(n as nat),
        forall|f: int| 0 <= f < r ==> #[trigger] (f * FRAME_SHIFT) + FRAME_LEN <= n,
{
    if n < FRAME_LEN {
        return 0;
    }
    let r: usize = (n - FRAME_LEN) / FRAME_SHIFT + 1;
    assert forall|f: int| 0 <= f < r implies #[trigger] (f * FRAME_SHIFT) + FRAME_LEN <= n by {
        assert(f * 160 <= (n - 400) / 160 * 160) by (nonlinear_arith)
            requires
                0 <= f < (n - 400) / 160 + 1,
        ;
    }
    r
}

/// The number of groups that `n` frames make.
pub open spec fn groups_in(n: nat) -> nat {
    (n + LFR_N - 1) as nat / LFR_N as nat
}

/// The frame that stands at place `i` of group `t`: the groups overlap, and beyond the two
/// ends the first and the last frame are repeated.
pub open spec fn group_source(n: nat, t: int, i: int) -> int {
    let k = t * LFR_N + i - (LFR_M - 1) / 2;
    if k < 0 {
        0
    } else if k >= n {
        n - 1
    } else {
        k
    }
}

/// The features of the first `k` frames of all groups, one after the other.
pub open spec fn grouped<T>(frames: Seq<Seq<T>>, k: int) -> Seq<T>
    decreases k,
{
    if k <= 0 {
        seq![]
    } else {
        let p = k - 1;
        grouped(frames, p) + frames[group_source(
            frames.len(),
            p / LFR_M as int,
            p % LFR_M as int,
        )]
    }
}

pub open spec fn frame_views<T>(frames: Seq<Vec<T>>) -> Seq<Seq<T>> {
    frames.map_values(|f: Vec<T>| f@)
}

/// Puts frames together to groups.
pub fn apply_lfr<T: Copy>(frames: &Vec<Vec<T>>) -> (r: Vec<T>)
    requires
        frames@.len() + LFR_N <= usize::MAX,
        groups_in(frames@.len()) * LFR_M <= usize::MAX,
    ensures
        r@ == grouped(frame_views(frames@), groups_in(frames@.len()) * LFR_M),
{
    let mut out: Vec<T> = Vec::new();
    let n: usize = frames.len();
    if n == 0 {
        assert(groups_in(0) == 0);
        return out;
    }
    let total: usize = (n + LFR_N - 1) / LFR_N * LFR_M;
    let ghost views = frame_views(frames@);
    for p in 0..total
        invariant
            n == frames@.len() == views.len(),
            n > 0,
            n + LFR_N <= usize::MAX,
            total == groups_in(n as nat) * LFR_M,
            views == frame_views(frames@),
            out@ == grouped(views, p as int),
    {
        let t: usize = p / LFR_M;
        let i: usize = p % LFR_M;
        assert(t < groups_in(n as nat)) by (nonlinear_arith)
            requires
                t == p / 7,
                p < total,
                total == groups_in(n as nat) * 7,
        ;
        assert(t * 6 <= n) by (nonlinear_arith)
            requires
                t < (n + 5) / 6,
        ;
        let padded: usize = t * LFR_N + i;
        let left: usize = (LFR_M - 1) / 2;
        let source: usize = if padded < left {
            0
        } else if padded - left > n - 1 {
            n - 1
        } else {
            padded - left
        };
        assert(source == group_source(n as nat, t as int, i as int));
        let ghost before = out@;
        let frame = &frames[source];
        assert(views[source as int] == frame@);
        for j in 0..frame.len()
            invariant
                out@ == before + frame@.take(j as int),
        {
            out.push(frame[j]);
            assert(out@ =~= before + frame@.take(j + 1));
        }
        assert(frame@.take(frame@.len() as int) =~= frame@);
    }
    out
}

/// Frames that all have the same number of features make groups that do, too.
pub proof fn law_groups_have_equal_length<T>(frames: Seq<Seq<T>>, k: int)
    requires
        frames.len() > 0,
        forall|i: int| 0 <= i < frames.len() ==> (#[trigger] frames[i]).len() == NUM_MEL,
        0 <= k <= groups_in(frames.len()) * LFR_M,
    ensures
        grouped(frames, k).len() == k * NUM_MEL,
    decreases k,
{
    if k > 0 {
        law_groups_have_equal_length(frames, k - 1);
    }
}

// ---------------------------------------------------------------------------
// Normalisation values
// ---------------------------------------------------------------------------

/// A word of the file of normalisation values: a number, or anything else.
pub enum CmvnToken<T> {
    Number(T),
    Word(String),
}

/// The words of the file of normalisation values.
pub fn cmvn_words(content: &str) -> (r: Vec<String>)
    ensures
        text::views(r@) == text::words_of(content@),
{
    text::words(content)
}

/// Where the reader of that file stands.
#[verifier::ext_equal]
pub struct CmvnModel<T> {
    /// The last tag, if no list has followed it: whether it announces the shifts.
    pub shifts_next: Option<bool>,
    pub in_list: bool,
    pub numbers: Seq<T>,
    pub shifts: Option<Seq<T>>,
    pub scales: Option<Seq<T>>,
}

/// The state after one more word.
pub open spec fn after_token<T>(m: CmvnModel<T>, token: CmvnToken<T>) -> CmvnModel<T> {
    match token {
        CmvnToken::Number(v) => if m.in_list {
            CmvnModel { numbers: m.numbers.push(v), ..m }
        } else {
            m
        },
        CmvnToken::Word(w) => if w@ == "<AddShift>"@ {
            CmvnModel { shifts_next: Some(true), numbers: seq![], in_list: false, ..m }
        } else if w@ == "<Rescale>"@ {
            CmvnModel { shifts_next: Some(false), numbers: seq![], in_list: false, ..m }
        } else if w@ == "["@ {
            CmvnModel { numbers: seq![], in_list: true, ..m }
        } else if w@ == "]"@ {
            let closed = CmvnModel { shifts_next: None, numbers: seq![], in_list: false, ..m };
            match m.shifts_next {
                Some(true) => CmvnModel { shifts: Some(m.numbers), ..closed },
                Some(false) => CmvnModel { scales: Some(m.numbers), ..closed },
                None => closed,
            }
        } else {
            m
        },
    }
}

/// The state after the words of the file.
pub open spec fn after_tokens<T>(tokens: Seq<CmvnToken<T>>) -> CmvnModel<T>
    decreases tokens.len(),
{
    if tokens.len() == 0 {
        CmvnModel { shifts_next: None, in_list: false, numbers: seq![], shifts: None, scales: None }
    } else {
        after_token(after_tokens(tokens.drop_last()), tokens.last())
    }
}

/// What an optional list holds.
pub open spec fn list_view<T>(v: Option<Vec<T>>) -> Option<Seq<T>> {
    match v {
        Some(v) => Some(v@),
        None => None,
    }
}

/// Reads the shifts and scales from the words of the file of normalisation values: the
/// last list after `<AddShift>` and the last one after `<Rescale>`.
pub fn parse_cmvn<T: Copy>(tokens: &Vec<CmvnToken<T>>) -> (r: Result<(Vec<T>, Vec<T>), String>)
    ensures
        ({
            let m = after_tokens(tokens@);
            match (m.shifts, m.scales) {
                (None, _) => r matches Err(e) && e@ == "am.mvn missing AddShift"@,
                (Some(_), None) => r matches Err(e) && e@ == "am.mvn missing Rescale"@,
                (Some(shifts), Some(scales)) => if shifts.len() != scales.len() {
                    r matches Err(e) && e@ == "am.mvn shift/rescale length mismatch: "@
                        + text::decimal(shifts.len()) + " vs "@ + text::decimal(scales.len())
                } else {
                    r matches Ok(v) && v.0@ == shifts && v.1@ == scales
                },
            }
        }),
{
    let mut shifts: Option<Vec<T>> = None;
    let mut scales: Option<Vec<T>> = None;
    let mut shifts_next: Option<bool> = None;
    let mut numbers: Vec<T> = Vec::new();
    let mut in_list = false;
    assert(tokens@.take(0) =~= seq![]);
    for i in 0..tokens.len()
        invariant
            after_tokens(tokens@.take(i as int)) == (CmvnModel {
                shifts_next,
                in_list,
                numbers: numbers@,
                shifts: list_view(shifts),
                scales: list_view(scales),
            }),
    {
        assert(tokens@.take(i + 1).drop_last() =~= tokens@.take(i as int));
        match &tokens[i] {
            CmvnToken::Number(v) => {
                if in_list {
                    numbers.push(*v);
                }
            },
            CmvnToken::Word(w) => {
                let w = w.as_str();
                if text::str_eq(w, "<AddShift>") {
                    shifts_next = Some(true);
                    numbers = Vec::new();
                    in_list = false;
                } else if text::str_eq(w, "<Rescale>") {
                    shifts_next = Some(false);
                    numbers = Vec::new();
                    in_list = false;
                } else if text::str_eq(w, "[") {
                    numbers = Vec::new();
                    in_list = true;
                } else if text::str_eq(w, "]") {
                    let mut list: Vec<T> = Vec::new();
                    std::mem::swap(&mut list, &mut numbers);
                    match shifts_next {
                        Some(true) => {
                            shifts = Some(list);
                        },
                        Some(false) => {
                            scales = Some(list);
                        },
                        None => {},
                    }
                    shifts_next = None;
                    in_list = false;
                }
            },
        }
    }
    assert(tokens@.take(tokens@.len() as int) =~= tokens@);
    match (shifts, scales) {
        (None, _) => Err("am.mvn missing AddShift".to_string()),
        (Some(_), None) => Err("am.mvn missing Rescale".to_string()),
        (Some(shifts), Some(scales)) => {
            if shifts.len() != scales.len() {
                let a = text::to_decimal(shifts.len() as u64);
                let b = text::to_decimal(scales.len() as u64);
                let head = text::concat3(
                    "am.mvn shift/rescale length mismatch: ",
                    a.as_str(),
                    " vs ",
                );
                Err(text::concat2(head.as_str(), b.as_str()))
            } else {
                Ok((shifts, scales))
            }
        },
    }
}

// ---------------------------------------------------------------------------
// Laws
// ---------------------------------------------------------------------------

/// The frames lie within the samples, ten milliseconds apart and twenty-five long, and there
/// is no room for one more.
pub proof fn law_frames_fill_the_samples(n: nat, f: int)
    requires
        0 <= f,
    ensures
        f < frames_in(n) <==> f * 160 + 400 <= n,
{
    if n >= 400 {
        assert(f <= (n - 400) / 160 <==> f * 160 <= n - 400) by (nonlinear_arith);
    }
}

/// Each frame stands in a group: behind the middle of one or before the middle of the next.
/// Only the last two frames can be left out, where there is no next group.
pub proof fn law_frames_stand_in_groups(n: nat, f: int)
    requires
        0 <= f < n,
    ensures
        ({
            let t = f / 6;
            let i = f % 6 + 3;
            &&& 0 <= t < groups_in(n)
            &&& 0 <= i
            &&& i < 7 ==> group_source(n, t, i) == f
            &&& f % 6 > 3 && t + 1 < groups_in(n) ==> group_source(n, t + 1, f % 6 - 3) == f
        }),
{
    assert(f == f / 6 * 6 + f % 6);
    assert(f / 6 < (n + 5) / 6) by (nonlinear_arith)
        requires
            0 <= f < n,
    ;
}

/// The frames of a group follow each other, and those that are missing at either end are
/// filled up by the first and the last.
pub proof fn law_groups_hold_frames_in_order(n: nat, t: int, i: int)
    requires
        0 <= t < groups_in(n),
        0 <= i < 6,
        n > 0,
    ensures
        0 <= group_source(n, t, i) < n,
        group_source(n, t, i) <= group_source(n, t, i + 1) <= group_source(n, t, i) + 1,
        0 <= t * 6 + i - 3 < n ==> group_source(n, t, i) == t * 6 + i - 3,
        t * 6 + i < 3 ==> group_source(n, t, i) == 0,
        t * 6 + i - 3 >= n ==> group_source(n, t, i) == n - 1,
        group_source(n, t, 6) < n,
{
}

/// Each place of a group shows the features of its frame, whole and in order.
pub proof fn law_groups_show_their_frames<T>(frames: Seq<Seq<T>>, k: int, p: int)
    requires
        frames.len() > 0,
        forall|i: int| 0 <= i < frames.len() ==> (#[trigger] frames[i]).len() == 80,
        0 <= p < k <= groups_in(frames.len()) * 7,
    ensures
        grouped(frames, k).len() == k * 80,
        grouped(frames, k).subrange(p * 80, p * 80 + 80) == frames[group_source(
            frames.len(),
            p / 7,
            p % 7,
        )],
    decreases k,
{
    law_groups_have_equal_length(frames, k);
    law_groups_have_equal_length(frames, k - 1);
    let source = group_source(frames.len(), p / 7, p % 7);
    let last = group_source(frames.len(), (k - 1) / 7, (k - 1) % 7);
    assert(0 <= last < frames.len());
    if p == k - 1 {
        assert(grouped(frames, k).subrange(p * 80, p * 80 + 80) =~= frames[source]);
    } else {
        law_groups_show_their_frames(frames, k - 1, p);
        assert(grouped(frames, k).subrange(p * 80, p * 80 + 80) =~= grouped(
            frames,
            k - 1,
        ).subrange(p * 80, p * 80 + 80));
    }
}

/// The numbers, one after the other.
pub open spec fn numbers<T>(values: Seq<T>) -> Seq<CmvnToken<T>> {
    values.map_values(|v: T| CmvnToken::Number(v))
}

proof fn lemma_numbers_are_collected<T>(before: Seq<CmvnToken<T>>, values: Seq<T>)
    requires
        after_tokens(before).in_list,
    ensures
        after_tokens(before + numbers(values)) == (CmvnModel {
            numbers: after_tokens(before).numbers + values,
            ..after_tokens(before)
        }),
    decreases values.len(),
{
    if values.len() == 0 {
        assert(before + numbers(values) =~= before);
        assert(after_tokens(before).numbers + values =~= after_tokens(before).numbers);
    } else {
        let all = before + numbers(values);
        lemma_numbers_are_collected(before, values.drop_last());
        assert(all.drop_last() =~= before + numbers(values.drop_last()));
        assert(all.last() == CmvnToken::Number(values.last()));
        assert((after_tokens(before).numbers + values.drop_last()).push(values.last())
            =~= after_tokens(before).numbers + values);
    }
}

/// A list in brackets behind the tag of the shifts or of the scales is read whole, whatever
/// stood before it, and the other list stays as it was.
pub proof fn law_a_tagged_list_is_read_whole<T>(
    before: Seq<CmvnToken<T>>,
    tag: String,
    open: String,
    close: String,
    values: Seq<T>,
)
    requires
        tag@ == "<AddShift>"@ || tag@ == "<Rescale>"@,
        open@ == "["@,
        close@ == "]"@,
    ensures
        ({
            let list = before.push(CmvnToken::Word(tag)).push(CmvnToken::Word(open)) + numbers(
                values,
            );
            let m = after_tokens(list.push(CmvnToken::Word(close)));
            &&& tag@ == "<AddShift>"@ ==> m.shifts == Some(values) && m.scales == after_tokens(
                before,
            ).scales
            &&& tag@ == "<Rescale>"@ ==> m.scales == Some(values) && m.shifts == after_tokens(
                before,
            ).shifts
        }),
{
    reveal_strlit("<AddShift>");
    reveal_strlit("<Rescale>");
    reveal_strlit("[");
    reveal_strlit("]");
    assert("<AddShift>"@.len() == 10);
    assert("<Rescale>"@.len() == 9);
    assert("["@.len() == 1);
    assert("]"@.len() == 1);
    assert("["@[0] == '[');
    assert("]"@[0] == ']');
    let tagged = before.push(CmvnToken::Word(tag));
    let opened = tagged.push(CmvnToken::Word(open));
    assert(tagged.drop_last() =~= before);
    assert(tagged.last() == CmvnToken::<T>::Word(tag));
    assert(after_tokens(tagged) == after_token(after_tokens(before), CmvnToken::Word(tag)));
    assert(opened.drop_last() =~= tagged);
    assert(opened.last() == CmvnToken::<T>::Word(open));
    assert(after_tokens(opened) == after_token(after_tokens(tagged), CmvnToken::Word(open)));
    let list = opened + numbers(values);
    lemma_numbers_are_collected(opened, values);
    assert(after_tokens(opened).numbers + values =~= values);
    let whole = list.push(CmvnToken::Word(close));
    assert(whole.drop_last() =~= list);
    assert(whole.last() == CmvnToken::<T>::Word(close));
    assert(after_tokens(whole) == after_token(after_tokens(list), CmvnToken::Word(close)));
}

} // verus!
