//! The recording of a meeting.
use vstd::prelude::*;

use crate::text;

verus! {

/// What a meeting is to record.
#[derive(Clone, Copy, Debug, PartialEq, Eq, Structural)]
pub struct MeetingAudioConfig {
    /// Whether the sound of the machine is asked for, too.
    pub include_system_audio: bool,
}

impl Default for MeetingAudioConfig {
    fn default() -> (r: Self)
        ensures
            !r.include_system_audio,
    {
        MeetingAudioConfig { include_system_audio: false }
    }
}

/// The time that passes between two reports of the level, in milliseconds.
pub const LEVEL_THROTTLE_MS: u64 = 16;

/// Whether the level is to be reported now, after a last report at `last`.
pub fn level_is_due(now: u64, last: u64) -> (r: bool)
    ensures
        r <==> now >= last + LEVEL_THROTTLE_MS,
{
    now >= last && now - last >= LEVEL_THROTTLE_MS
}

// ---------------------------------------------------------------------------
// Devices
// ---------------------------------------------------------------------------

/// How often `name` is among the names.
pub open spec fn count_of(names: Seq<Seq<char>>, name: Seq<char>) -> nat
    decreases names.len(),
{
    if names.len() == 0 {
        0
    } else {
        count_of(names.drop_last(), name) + if names.last() == name {
            1nat
        } else {
            0nat
        }
    }
}

/// The id of device `i`: its name, with a number where devices before it have the same.
pub open spec fn device_id(names: Seq<Seq<char>>, i: int) -> Seq<char> {
    let n = count_of(names.take(i + 1), names[i]);
    if n == 1 {
        names[i]
    } else {
        names[i] + " ("@ + text::decimal(n) + ")"@
    }
}

fn count_before(names: &Vec<String>, i: usize) -> (r: usize)
    requires
        i < names@.len(),
    ensures
        r == count_of(text::views(names@).take(i + 1), text::views(names@)[i as int]),
{
    let ghost all = text::views(names@);
    let name = &names[i];
    let total: usize = names.len();
    let end: usize = i + 1;
    let mut n: usize = 0;
    assert(all.take(0) =~= seq![]);
    for k in 0..end
        invariant
            end == i + 1,
            all == text::views(names@),
            i < names@.len(),
            name@ == all[i as int],
            n <= k,
            n == count_of(all.take(k as int), all[i as int]),
    {
        assert(all.take(k + 1).drop_last() =~= all.take(k as int));
        if text::str_eq(names[k].as_str(), name.as_str()) {
            n = n + 1;
        }
    }
    n
}

/// The first of the devices of these names that has the id `wanted`.
pub fn find_device(names: &Vec<String>, wanted: &str) -> (r: Result<usize, String>)
    ensures
        match r {
            Ok(i) => i < names@.len() && device_id(text::views(names@), i as int) == wanted@
                && forall|j: int|
                0 <= j < i ==> #[trigger] device_id(text::views(names@), j) != wanted@,
            Err(m) => (forall|j: int|
                0 <= j < names@.len() ==> #[trigger] device_id(text::views(names@), j) != wanted@)
                && m@ == "input device not found: "@ + wanted@,
        },
{
    let ghost all = text::views(names@);
    for i in 0..names.len()
        invariant
            all == text::views(names@),
            forall|j: int| 0 <= j < i ==> #[trigger] device_id(all, j) != wanted@,
    {
        let n: usize = count_before(names, i);
        let name = names[i].as_str();
        let id = if n == 1 {
            name.to_string()
        } else {
            let number = text::to_decimal(n as u64);
            let head = text::concat3(name, " (", number.as_str());
            text::concat2(head.as_str(), ")")
        };
        assert(id@ == device_id(all, i as int));
        if text::str_eq(id.as_str(), wanted) {
            return Ok(i);
        }
    }
    Err(text::concat2("input device not found: ", wanted))
}

// ---------------------------------------------------------------------------
// Channels
// ---------------------------------------------------------------------------

/// The frames of interleaved samples: `channels` samples each, the last one possibly
/// fewer.
pub open spec fn frame_of<T>(data: Seq<T>, channels: int, f: int) -> Seq<T> {
    let start = f * channels;
    let end = if start + channels <= data.len() {
        start + channels
    } else {
        data.len() as int
    };
    data.subrange(start, end)
}

/// The number of frames of `n` interleaved samples.
pub open spec fn frame_total(n: int, channels: int) -> int {
    (n + channels - 1) / channels
}

/// The frames of interleaved samples.
pub fn frames<T: Copy>(data: &Vec<T>, channels: usize) -> (r: Vec<Vec<T>>)
    requires
        channels > 0,
    ensures
        r@.len() == frame_total(data@.len() as int, channels as int),
        forall|f: int|
            0 <= f < r@.len() ==> (#[trigger] r@[f])@ == frame_of(data@, channels as int, f),
{
    let mut out: Vec<Vec<T>> = Vec::new();
    let n: usize = data.len();
    let mut start: usize = 0;
    proof {
        lemma_frame_total(0, channels as int);
        if n == 0 {
            assert(frame_total(0, channels as int) == 0);
        }
    }
    while start < n
        invariant
            channels > 0,
            n == data@.len(),
            start <= n,
            start < n ==> start == out@.len() * channels,
            start == n ==> out@.len() == frame_total(n as int, channels as int),
            forall|f: int|
                0 <= f < out@.len() ==> (#[trigger] out@[f])@ == frame_of(
                    data@,
                    channels as int,
                    f,
                ),
        decreases n - start,
    {
        let size: usize = if n - start < channels {
            n - start
        } else {
            channels
        };
        let mut frame: Vec<T> = Vec::new();
        for i in 0..size
            invariant
                n == data@.len(),
                start + size <= n,
                frame@ == data@.subrange(start as int, start + i),
        {
            frame.push(data[start + i]);
            assert(frame@ =~= data@.subrange(start as int, start + i + 1));
        }
        let ghost f = out@.len() as int;
        assert(frame@ == frame_of(data@, channels as int, f));
        out.push(frame);
        start = start + size;
        proof {
            assert((f + 1) * channels == f * channels + channels) by (nonlinear_arith);
            if start == n {
                assert(frame_total(n as int, channels as int) == f + 1) by (nonlinear_arith)
                    requires
                        channels > 0,
                        f * channels < n <= f * channels + channels,
                ;
            }
        }
    }
    out
}

proof fn lemma_frame_total(n: int, channels: int)
    requires
        channels > 0,
        n == 0,
    ensures
        frame_total(n, channels) == 0,
{
    assert((channels - 1) / channels == 0) by (nonlinear_arith)
        requires
            channels > 0,
    ;
}

proof fn lemma_count_grows(names: Seq<Seq<char>>, name: Seq<char>, a: int, b: int)
    requires
        0 <= a <= b <= names.len(),
    ensures
        count_of(names.take(a), name) <= count_of(names.take(b), name),
    decreases b - a,
{
    if a < b {
        lemma_count_grows(names, name, a, b - 1);
        assert(names.take(b).drop_last() =~= names.take(b - 1));
    }
}

/// The first device of a name is called by it, and two devices of the same name have different
/// ids.
pub proof fn law_devices_of_one_name_are_told_apart(names: Seq<Seq<char>>, i: int, j: int)
    requires
        0 <= i < j < names.len(),
        names[i] == names[j],
    ensures
        device_id(names, i) != device_id(names, j),
        (forall|k: int| 0 <= k < i ==> names[k] != names[i]) ==> device_id(names, i) == names[i],
        device_id(names, j) != names[j],
{
    let name = names[i];
    assert(names.take(j + 1).drop_last() =~= names.take(j));
    assert(names.take(i + 1).drop_last() =~= names.take(i));
    lemma_count_grows(names, name, i + 1, j);
    let a = count_of(names.take(i + 1), name);
    let b = count_of(names.take(j + 1), name);
    assert(a < b);
    assert(1 <= a);
    text::law_digits_stand_for_the_number(a);
    text::law_digits_stand_for_the_number(b);
    reveal_strlit(" (");
    reveal_strlit(")");
    assert(" ("@.len() == 2);
    assert(")"@.len() == 1);
    let id = device_id(names, j);
    let n = name.len() as int + 2;
    assert(id == name + " ("@ + text::decimal(b) + ")"@);
    assert(id.subrange(n, id.len() - 1) =~= text::decimal(b));
    if a > 1 {
        let other = device_id(names, i);
        assert(other.subrange(n, other.len() - 1) =~= text::decimal(a));
    }
    if forall|k: int| 0 <= k < i ==> names[k] != names[i] {
        lemma_not_counted(names, name, i);
    }
}

proof fn lemma_not_counted(names: Seq<Seq<char>>, name: Seq<char>, n: int)
    requires
        0 <= n <= names.len(),
        forall|k: int| 0 <= k < n ==> names[k] != name,
    ensures
        count_of(names.take(n), name) == 0,
    decreases n,
{
    if n > 0 {
        lemma_not_counted(names, name, n - 1);
        assert(names.take(n).drop_last() =~= names.take(n - 1));
    }
}

/// No sample is lost: sample `k` stands in its frame, at the place of its channel.
pub proof fn law_each_sample_stands_in_its_frame<T>(data: Seq<T>, channels: int, k: int)
    requires
        channels > 0,
        0 <= k < data.len(),
    ensures
        0 <= k / channels < frame_total(data.len() as int, channels),
        k % channels < frame_of(data, channels, k / channels).len(),
        frame_of(data, channels, k / channels)[k % channels] == data[k],
        frame_of(data, channels, k / channels).len() <= channels,
{
    let n = data.len() as int;
    let f = k / channels;
    assert(k == f * channels + k % channels && 0 <= k % channels < channels && 0 <= f)
        by (nonlinear_arith)
        requires
            channels > 0,
            k >= 0,
            f == k / channels,
    ;
    assert(0 <= f * channels) by (nonlinear_arith)
        requires
            0 <= f,
            channels > 0,
    ;
    assert(f < (n + channels - 1) / channels) by (nonlinear_arith)
        requires
            channels > 0,
            f * channels < n,
    ;
}

} // verus!
