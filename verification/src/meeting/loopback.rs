//! The recording of the sound of the machine.
//!
//! The sound comes in packets of interleaved frames. What stands here decides what is done
//! with a packet, and takes its frames apart; the samples of a frame are then mixed.
use vstd::prelude::*;

verus! {

/// A recording that is going on.
pub struct LoopbackCapture {
    active: bool,
    sample_rate: u32,
    channels: u32,
}

impl LoopbackCapture {
    pub closed spec fn is_active(self) -> bool {
        self.active
    }

    pub closed spec fn rate(self) -> u32 {
        self.sample_rate
    }

    pub closed spec fn channel_count(self) -> u32 {
        self.channels
    }

    /// The recording with the format that the device told. A device that told none by now
    /// cannot be recorded.
    pub fn start(sample_rate: u32, channels: u32) -> (r: Result<Self, String>)
        ensures
            match r {
                Ok(c) => sample_rate != 0 && c.is_active() && c.rate() == sample_rate
                    && c.channel_count() == channels,
                Err(m) => sample_rate == 0 && m@
                    == "WASAPI loopback: failed to get audio format from render device"@,
            },
    {
        if sample_rate == 0 {
            return Err(
                "WASAPI loopback: failed to get audio format from render device".to_string(),
            );
        }
        Ok(LoopbackCapture { active: true, sample_rate, channels })
    }

    pub fn sample_rate(&self) -> (r: u32)
        ensures
            r == self.rate(),
    {
        self.sample_rate
    }

    pub fn channels(&self) -> (r: u32)
        ensures
            r == self.channel_count(),
    {
        self.channels
    }

    pub fn stop(&mut self)
        ensures
            !final(self).is_active(),
            final(self).rate() == old(self).rate(),
            final(self).channel_count() == old(self).channel_count(),
    {
        self.active = false;
    }
}

// ---------------------------------------------------------------------------
// Packets
// ---------------------------------------------------------------------------

/// How the samples of a packet are written.
#[derive(Clone, Copy, Debug, PartialEq, Eq, Structural)]
pub enum SampleFormat {
    /// Whole numbers of two bytes.
    Pcm16,
    /// Floating-point numbers of four bytes.
    Float32,
    /// Anything else, which is passed over.
    Other,
}

pub fn sample_format(bits_per_sample: u16) -> (r: SampleFormat)
    ensures
        r == (if bits_per_sample == 16 {
            SampleFormat::Pcm16
        } else if bits_per_sample == 32 {
            SampleFormat::Float32
        } else {
            SampleFormat::Other
        }),
{
    if bits_per_sample == 16 {
        SampleFormat::Pcm16
    } else if bits_per_sample == 32 {
        SampleFormat::Float32
    } else {
        SampleFormat::Other
    }
}

/// The number of bytes of a packet with so many frames.
pub fn packet_bytes(num_frames: u32, channels: u16, bits_per_sample: u16) -> (r: u64)
    ensures
        r == num_frames * (channels * (bits_per_sample / 8)),
{
    let sample: u32 = bits_per_sample as u32 / 8;
    assert(channels * sample <= 65535 * 8191) by (nonlinear_arith)
        requires
            channels <= 65535,
            sample <= 8191,
    ;
    let frame: u64 = (channels as u32 * sample) as u64;
    assert(num_frames * frame <= 4294967295 * (65535 * 8191)) by (nonlinear_arith)
        requires
            num_frames <= 4294967295,
            frame <= 65535 * 8191,
    ;
    num_frames as u64 * frame
}

/// What the device told about the next packet.
pub enum PacketState {
    /// It could not say how long the packet is.
    SizeFailed,
    /// There is none.
    Empty,
    /// The packet could not be had.
    BufferFailed,
    /// The packet, with its number of frames; without data where the device has none.
    Ready { has_data: bool, num_frames: u32 },
}

/// What is done with a packet.
#[derive(Clone, Copy, Debug, PartialEq, Eq, Structural)]
pub enum PacketStep {
    /// Wait, and ask again.
    Wait,
    /// Give the packet back and go on with the next.
    Release(u32),
    /// Take its frames, give it back, and go on with the next.
    Take(u32),
}

/// What is done with a packet.
pub fn packet_step(state: PacketState) -> (r: PacketStep)
    ensures
        r == (match state {
            PacketState::Ready { has_data, num_frames } => if has_data && num_frames > 0 {
                PacketStep::Take(num_frames)
            } else {
                PacketStep::Release(num_frames)
            },
            _ => PacketStep::Wait,
        }),
{
    match state {
        PacketState::Ready { has_data, num_frames } => if has_data && num_frames > 0 {
            PacketStep::Take(num_frames)
        } else {
            PacketStep::Release(num_frames)
        },
        _ => PacketStep::Wait,
    }
}

// ---------------------------------------------------------------------------
// Frames
// ---------------------------------------------------------------------------

/// The number that two bytes stand for, the lower one first, negative ones as two's
/// complements.
pub open spec fn le_i16(low: u8, high: u8) -> int {
    if high < 128 {
        low + 256 * high
    } else {
        low + 256 * high - 65536
    }
}

/// The bits that four bytes stand for, the lowest one first.
pub open spec fn le_u32(b0: u8, b1: u8, b2: u8, b3: u8) -> int {
    b0 + 256 * b1 + 65536 * b2 + 16777216 * b3
}

/// The number of complete frames of `n` bytes, with samples of `size` bytes.
pub open spec fn frames_of(n: int, size: int, channels: int) -> int {
    n / size / channels
}

proof fn lemma_offset(n: int, size: int, channels: int, f: int, c: int)
    requires
        size > 0,
        channels > 0,
        0 <= n,
        0 <= f < frames_of(n, size, channels),
        0 <= c < channels,
    ensures
        0 <= f * channels + c,
        (f * channels + c) * size + size <= n,
{
    let samples = n / size;
    assert(f * channels + c + 1 <= samples) by (nonlinear_arith)
        requires
            channels > 0,
            0 <= f < samples / channels,
            0 <= c < channels,
    ;
    assert(0 <= f * channels + c) by (nonlinear_arith)
        requires
            channels > 0,
            0 <= f,
            0 <= c,
    ;
    assert((f * channels + c) * size + size <= n) by (nonlinear_arith)
        requires
            size > 0,
            f * channels + c + 1 <= n / size,
    ;
}

/// The frames of a packet of whole numbers.
pub fn pcm16_frames(data: &Vec<u8>, channels: usize) -> (r: Vec<Vec<i16>>)
    requires
        channels > 0,
    ensures
        r@.len() == frames_of(data@.len() as int, 2, channels as int),
        forall|f: int| 0 <= f < r@.len() ==> (#[trigger] r@[f])@.len() == channels,
        forall|f: int, c: int|
            0 <= f < r@.len() && 0 <= c < channels ==> #[trigger] r@[f]@[c] == le_i16(
                data@[(f * channels + c) * 2],
                data@[(f * channels + c) * 2 + 1],
            ),
{
    let mut out: Vec<Vec<i16>> = Vec::new();
    let bytes: usize = data.len();
    let total: usize = bytes / 2 / channels;
    for f in 0..total
        invariant
            channels > 0,
            bytes == data@.len(),
            total == frames_of(data@.len() as int, 2, channels as int),
            out@.len() == f,
            forall|g: int| 0 <= g < f ==> (#[trigger] out@[g])@.len() == channels,
            forall|g: int, c: int|
                0 <= g < f && 0 <= c < channels ==> #[trigger] out@[g]@[c] == le_i16(
                    data@[(g * channels + c) * 2],
                    data@[(g * channels + c) * 2 + 1],
                ),
    {
        let mut frame: Vec<i16> = Vec::new();
        for c in 0..channels
            invariant
                channels > 0,
                f < total,
                bytes == data@.len(),
                total == frames_of(data@.len() as int, 2, channels as int),
                frame@.len() == c,
                forall|k: int|
                    0 <= k < c ==> #[trigger] frame@[k] == le_i16(
                        data@[(f * channels + k) * 2],
                        data@[(f * channels + k) * 2 + 1],
                    ),
        {
            proof {
                lemma_offset(data@.len() as int, 2, channels as int, f as int, c as int);
                assert(0 <= f * channels <= f * channels + c) by (nonlinear_arith)
                    requires
                        channels > 0,
                        0 <= c,
                        0 <= f,
                ;
            }
            let at: usize = (f * channels + c) * 2;
            let low: u8 = data[at];
            let high: u8 = data[at + 1];
            let n: i32 = low as i32 + 256 * high as i32;
            if high < 128 {
                frame.push(n as i16);
            } else {
                frame.push((n - 65536) as i16);
            }
        }
        let ghost before = out@;
        out.push(frame);
        assert forall|g: int, c: int| 0 <= g < f + 1 && 0 <= c < channels implies #[trigger] out@[g]@[c]
            == le_i16(data@[(g * channels + c) * 2], data@[(g * channels + c) * 2 + 1]) by {
            if g < f {
                assert(out@[g] == before[g]);
            }
        }
    }
    out
}

/// The frames of a packet of floating-point numbers, each as its bits.
pub fn float32_frames(data: &Vec<u8>, channels: usize) -> (r: Vec<Vec<u32>>)
    requires
        channels > 0,
    ensures
        r@.len() == frames_of(data@.len() as int, 4, channels as int),
        forall|f: int| 0 <= f < r@.len() ==> (#[trigger] r@[f])@.len() == channels,
        forall|f: int, c: int|
            0 <= f < r@.len() && 0 <= c < channels ==> #[trigger] r@[f]@[c] == le_u32(
                data@[(f * channels + c) * 4],
                data@[(f * channels + c) * 4 + 1],
                data@[(f * channels + c) * 4 + 2],
                data@[(f * channels + c) * 4 + 3],
            ),
{
    let mut out: Vec<Vec<u32>> = Vec::new();
    let bytes: usize = data.len();
    let total: usize = bytes / 4 / channels;
    for f in 0..total
        invariant
            channels > 0,
            bytes == data@.len(),
            total == frames_of(data@.len() as int, 4, channels as int),
            out@.len() == f,
            forall|g: int| 0 <= g < f ==> (#[trigger] out@[g])@.len() == channels,
            forall|g: int, c: int|
                0 <= g < f && 0 <= c < channels ==> #[trigger] out@[g]@[c] == le_u32(
                    data@[(g * channels + c) * 4],
                    data@[(g * channels + c) * 4 + 1],
                    data@[(g * channels + c) * 4 + 2],
                    data@[(g * channels + c) * 4 + 3],
                ),
    {
        let mut frame: Vec<u32> = Vec::new();
        for c in 0..channels
            invariant
                channels > 0,
                f < total,
                bytes == data@.len(),
                total == frames_of(data@.len() as int, 4, channels as int),
                frame@.len() == c,
                forall|k: int|
                    0 <= k < c ==> #[trigger] frame@[k] == le_u32(
                        data@[(f * channels + k) * 4],
                        data@[(f * channels + k) * 4 + 1],
                        data@[(f * channels + k) * 4 + 2],
                        data@[(f * channels + k) * 4 + 3],
                    ),
        {
            proof {
                lemma_offset(data@.len() as int, 4, channels as int, f as int, c as int);
                assert(0 <= f * channels <= f * channels + c) by (nonlinear_arith)
                    requires
                        channels > 0,
                        0 <= c,
                        0 <= f,
                ;
            }
            let at: usize = (f * channels + c) * 4;
            let n: u32 = data[at] as u32 + 256 * data[at + 1] as u32 + 65536 * data[at + 2] as u32
                + 16777216 * data[at + 3] as u32;
            frame.push(n);
        }
        let ghost before = out@;
        out.push(frame);
        assert forall|g: int, c: int| 0 <= g < f + 1 && 0 <= c < channels implies #[trigger] out@[g]@[c]
            == le_u32(
            data@[(g * channels + c) * 4],
            data@[(g * channels + c) * 4 + 1],
            data@[(g * channels + c) * 4 + 2],
            data@[(g * channels + c) * 4 + 3],
        ) by {
            if g < f {
                assert(out@[g] == before[g]);
            }
        }
    }
    out
}

/// The bytes of a number can be read back from it, and it lies in the range of its type.
pub proof fn law_numbers_stand_for_their_bytes(b0: u8, b1: u8, b2: u8, b3: u8)
    ensures
        -32768 <= le_i16(b0, b1) <= 32767,
        le_i16(b0, b1) % 256 == b0,
        le_i16(b0, b1) < 0 <==> b1 >= 0x80,
        (le_i16(b0, b1) - b0) / 256 % 256 == b1,
        0 <= le_u32(b0, b1, b2, b3) <= u32::MAX,
        le_u32(b0, b1, b2, b3) % 256 == b0,
        le_u32(b0, b1, b2, b3) / 256 % 256 == b1,
        le_u32(b0, b1, b2, b3) / 65536 % 256 == b2,
        le_u32(b0, b1, b2, b3) / 16777216 == b3,
{
}

/// As many frames are read as are there in full.
pub proof fn law_complete_frames_are_read(n: int, size: int, channels: int)
    requires
        n >= 0,
        size > 0,
        channels > 0,
    ensures
        frames_of(n, size, channels) * channels * size <= n,
        n < (frames_of(n, size, channels) + 1) * channels * size,
{
    let samples = n / size;
    let f = samples / channels;
    assert(samples * size <= n < samples * size + size) by (nonlinear_arith)
        requires
            n >= 0,
            size > 0,
            samples == n / size,
    ;
    assert(f * channels <= samples < f * channels + channels) by (nonlinear_arith)
        requires
            channels > 0,
            f == samples / channels,
    ;
    assert(f * channels * size <= n) by (nonlinear_arith)
        requires
            f * channels <= samples,
            samples * size <= n,
            size > 0,
    ;
    assert(n < (f + 1) * channels * size) by (nonlinear_arith)
        requires
            samples < f * channels + channels,
            n < samples * size + size,
            size > 0,
    ;
}

} // verus!
