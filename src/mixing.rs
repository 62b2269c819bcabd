//! Frame geometry and the sample-index side of resampling, downmixing and
//! upmixing. The sample arithmetic itself runs on floating-point samples
//! outside this crate; everything here decides which samples take part and
//! with which weights.
use vstd::prelude::*;

verus! {

/// Sample rate of every frame handed to the encoder, in Hz.
pub const SAMPLE_RATE: u32 = 48000;

/// Channel count of every frame handed to the encoder.
pub const CHANNELS: u16 = 1;

/// Samples in one 20 ms frame at 48 kHz.
pub const FRAME_SIZE: usize = 960;

/// How one output sample of a linear-interpolation resampler is formed from
/// the source: silence, or `src[lo] * (den - num) / den + src[hi] * num / den`.
#[derive(Clone, Copy, Debug, PartialEq, Eq, Structural)]
pub enum Tap {
    Silence,
    Blend { lo: usize, hi: usize, num: u64, den: u64 },
}

/// The tap for output index `i`: the source position is `i * src_rate / dst_rate`;
/// its whole part picks `lo`, its fraction is `num / den`. A position past the
/// end of the source is silence; a right neighbour past the end is replaced by
/// `lo` itself (edge clamp).
pub open spec fn tap_at(src_len: nat, src_rate: nat, dst_rate: nat, i: nat) -> Tap {
    let pos = i * src_rate;
    let lo = pos / dst_rate;
    if lo >= src_len {
        Tap::Silence
    } else {
        Tap::Blend {
            lo: lo as usize,
            hi: (if lo + 1 < src_len { lo + 1 } else { lo }) as usize,
            num: (pos % dst_rate) as u64,
            den: dst_rate as u64,
        }
    }
}

/// A tap that reads only samples below `src_len`, with weights in [0, 1].
pub open spec fn tap_in_range(t: Tap, src_len: nat) -> bool {
    match t {
        Tap::Silence => true,
        Tap::Blend { lo, hi, num, den } => lo < src_len && hi < src_len && num < den,
    }
}

/// Plans a linear-interpolation resample of `src_len` samples at `src_rate`
/// into `dst_len` samples at `dst_rate`: one tap per output sample.
pub fn resample_plan(src_len: usize, src_rate: u32, dst_rate: u32, dst_len: usize) -> (r: Vec<Tap>)
    requires
        dst_rate > 0,
        dst_len <= u32::MAX,
    ensures
        r@.len() == dst_len,
        forall|i: int|
            0 <= i < dst_len ==> r@[i] == tap_at(src_len as nat, src_rate as nat, dst_rate as nat, i as nat),
{
    let mut r: Vec<Tap> = Vec::with_capacity(dst_len);
    let mut i: usize = 0;
    while i < dst_len
        invariant
            dst_rate > 0,
            dst_len <= u32::MAX,
            i <= dst_len,
            r@.len() == i,
            forall|j: int|
                0 <= j < i ==> r@[j] == tap_at(src_len as nat, src_rate as nat, dst_rate as nat, j as nat),
        decreases dst_len - i,
    {
        assert((i as int) * (src_rate as int) <= (u32::MAX as int) * (u32::MAX as int)) by (nonlinear_arith)
            requires
                0 <= i <= u32::MAX,
                0 <= src_rate <= u32::MAX,
        ;
        let pos: u64 = (i as u64) * (src_rate as u64);
        let lo: u64 = pos / (dst_rate as u64);
        let tap = if lo >= src_len as u64 {
            Tap::Silence
        } else {
            let lo_index = lo as usize;
            let hi = if lo_index + 1 < src_len { lo_index + 1 } else { lo_index };
            Tap::Blend { lo: lo_index, hi, num: pos % (dst_rate as u64), den: dst_rate as u64 }
        };
        r.push(tap);
        i = i + 1;
    }
    r
}

/// Interleaved samples in one 20 ms chunk of device audio: `(rate / 50) * channels`.
pub open spec fn chunk_samples_spec(rate: nat, channels: nat) -> nat {
    (rate / 50) * channels
}

/// Interleaved samples in one 20 ms chunk of device audio.
pub fn chunk_samples(rate: u32, channels: u16) -> (r: usize)
    requires
        chunk_samples_spec(rate as nat, channels as nat) <= usize::MAX,
    ensures
        r == chunk_samples_spec(rate as nat, channels as nat),
{
    ((rate / 50) as usize) * (channels as usize)
}

/// Capacity of a device ring buffer, about 200 ms of interleaved audio:
/// `(rate / 5) * channels`.
pub fn ring_capacity(rate: u32, channels: u16) -> (r: usize)
    requires
        (rate as nat / 5) * (channels as nat) <= usize::MAX,
    ensures
        r == (rate as nat / 5) * (channels as nat),
{
    ((rate / 5) as usize) * (channels as usize)
}

/// Whether device audio at `rate` must be resampled to reach 48 kHz.
pub fn needs_resample(rate: u32) -> (r: bool)
    ensures
        r == (rate != SAMPLE_RATE),
{
    rate != SAMPLE_RATE
}

/// Whether device audio with `channels` channels must be mixed down (or up).
pub fn needs_channel_mix(channels: u16) -> (r: bool)
    ensures
        r == (channels > 1),
{
    channels > 1
}

/// The plan that turns one downmixed 20 ms chunk at `rate` into one 960-sample
/// frame at 48 kHz.
pub fn capture_plan(rate: u32) -> (r: Vec<Tap>)
    requires
        rate > 0,
    ensures
        r@.len() == FRAME_SIZE,
        forall|i: int|
            0 <= i < FRAME_SIZE ==> r@[i] == tap_at(rate as nat / 50, rate as nat, SAMPLE_RATE as nat, i as nat),
{
    resample_plan((rate / 50) as usize, rate, SAMPLE_RATE, FRAME_SIZE)
}

/// Output length of a playback resample of `len` samples at 48 kHz to `rate`:
/// `len * rate / 48000`, rounded down.
pub open spec fn playback_len_spec(len: nat, rate: nat) -> nat {
    len * rate / (SAMPLE_RATE as nat)
}

/// The plan that turns `len` decoded samples at 48 kHz into samples at the
/// output device's `rate`.
pub fn playback_plan(len: usize, rate: u32) -> (r: Vec<Tap>)
    requires
        rate > 0,
        len <= u32::MAX,
        playback_len_spec(len as nat, rate as nat) <= u32::MAX,
    ensures
        r@.len() == playback_len_spec(len as nat, rate as nat),
        forall|i: int|
            0 <= i < r@.len() ==> r@[i] == tap_at(len as nat, SAMPLE_RATE as nat, rate as nat, i as nat),
{
    assert((len as int) * (rate as int) <= (u32::MAX as int) * (u32::MAX as int)) by (nonlinear_arith)
        requires
            0 <= len <= u32::MAX,
            0 <= rate <= u32::MAX,
    ;
    let out_len: u64 = (len as u64) * (rate as u64) / (SAMPLE_RATE as u64);
    resample_plan(len, SAMPLE_RATE, rate, out_len as usize)
}

/// The first `min(len, 960)` samples of `mono`, padded with `fill` up to 960.
pub open spec fn fitted<T>(mono: Seq<T>, fill: T) -> Seq<T> {
    Seq::new(FRAME_SIZE as nat, |i: int| if i < mono.len() { mono[i] } else { fill })
}

/// The frame used when no resampling is needed: the first `min(len, 960)`
/// samples of `mono`, padded with `fill` up to 960.
pub fn fit_frame<T: Copy>(mono: &Vec<T>, fill: T) -> (r: Vec<T>)
    ensures
        r@ == fitted(mono@, fill),
        r@.len() == FRAME_SIZE,
        forall|i: int| 0 <= i < FRAME_SIZE && i < mono@.len() ==> r@[i] == mono@[i],
        forall|i: int| 0 <= i < FRAME_SIZE && i >= mono@.len() ==> r@[i] == fill,
{
    let mut r: Vec<T> = Vec::with_capacity(FRAME_SIZE);
    let mut i: usize = 0;
    while i < FRAME_SIZE
        invariant
            i <= FRAME_SIZE,
            r@.len() == i,
            forall|j: int| 0 <= j < i && j < mono@.len() ==> r@[j] == mono@[j],
            forall|j: int| 0 <= j < i && j >= mono@.len() ==> r@[j] == fill,
        decreases FRAME_SIZE - i,
    {
        if i < mono.len() {
            r.push(mono[i]);
        } else {
            r.push(fill);
        }
        i = i + 1;
    }
    assert(r@ =~= fitted(mono@, fill));
    r
}

/// Replicates every mono sample `channels` times, giving interleaved audio.
pub fn upmix<T: Copy>(mono: &Vec<T>, channels: usize) -> (r: Vec<T>)
    requires
        channels > 0,
        mono@.len() * channels <= usize::MAX,
    ensures
        r@.len() == mono@.len() * channels,
        forall|j: int| 0 <= j < r@.len() ==> r@[j] == mono@[j / channels as int],
{
    let mut r: Vec<T> = Vec::new();
    let mut i: usize = 0;
    while i < mono.len()
        invariant
            channels > 0,
            mono@.len() * channels <= usize::MAX,
            i <= mono@.len(),
            r@.len() == i * channels,
            forall|j: int| 0 <= j < r@.len() ==> r@[j] == mono@[j / channels as int],
        decreases mono@.len() - i,
    {
        let s = mono[i];
        let mut c: usize = 0;
        while c < channels
            invariant
                channels > 0,
                mono@.len() * channels <= usize::MAX,
                i < mono@.len(),
                s == mono@[i as int],
                c <= channels,
                r@.len() == i * channels + c,
                forall|j: int| 0 <= j < r@.len() ==> r@[j] == mono@[j / channels as int],
            decreases channels - c,
        {
            proof {
                assert((i as int) * (channels as int) + (c as int) < (mono@.len() as int) * (channels as int)) by (nonlinear_arith)
                    requires
                        i < mono@.len(),
                        c < channels,
                ;
                let j = (i as int) * (channels as int) + (c as int);
                assert(j / (channels as int) == i as int) by (nonlinear_arith)
                    requires
                        j == (i as int) * (channels as int) + (c as int),
                        0 <= c < channels,
                        0 <= i,
                ;
            }
            r.push(s);
            c = c + 1;
        }
        proof {
            assert((i as int + 1) * (channels as int) == (i as int) * (channels as int) + (channels as int)) by (nonlinear_arith);
        }
        i = i + 1;
    }
    r
}

/// Whatever the device's rate and channel count, one 20 ms chunk mixes down
/// to `rate / 50` mono samples and resamples to exactly 960 samples at 48 kHz.
/// Every output sample reads only samples of the chunk, with weights in
/// [0, 1], so it lies between two input samples and the peak is never
/// amplified; where the rate is a multiple of 50 Hz no output sample falls
/// past the chunk's end.
pub proof fn lemma_capture_frame_shape(rate: nat, channels: nat)
    requires
        rate > 0,
        channels > 0,
    ensures
        chunk_samples_spec(rate, channels) / channels == rate / 50,
        forall|i: nat| i < FRAME_SIZE ==> tap_in_range(#[trigger] tap_at(rate / 50, rate, SAMPLE_RATE as nat, i), rate / 50),
        rate % 50 == 0 ==> forall|i: nat| i < FRAME_SIZE ==> (#[trigger] tap_at(rate / 50, rate, SAMPLE_RATE as nat, i)) is Blend,
{
    let q = rate / 50;
    assert((q * channels) / channels == q) by (nonlinear_arith)
        requires
            channels > 0,
    ;
    assert forall|i: nat| i < FRAME_SIZE implies tap_in_range(#[trigger] tap_at(q, rate, SAMPLE_RATE as nat, i), q) by {
        let pos = i * rate;
        assert(pos % 48000 < 48000);
    }
    if rate % 50 == 0 {
        assert forall|i: nat| i < FRAME_SIZE implies (#[trigger] tap_at(q, rate, SAMPLE_RATE as nat, i)) is Blend by {
            assert(rate == 50 * q);
            assert((i * rate) / 48000 < q) by (nonlinear_arith)
                requires
                    rate == 50 * q,
                    i < 960,
                    q > 0,
            {
                assert(i * rate == (i * 50) * q);
                assert(i * rate < 48000 * q);
            }
        }
    }
}

/// At 48 kHz mono no resampling or mixing takes place: a 20 ms chunk is
/// already one 960-sample frame, it passes through unchanged, and the
/// resampling plan for equal rates reads each sample at its own index with
/// zero fraction.
pub proof fn lemma_native_format_is_identity<T>(mono: Seq<T>, fill: T)
    requires
        mono.len() == chunk_samples_spec(SAMPLE_RATE as nat, CHANNELS as nat),
    ensures
        SAMPLE_RATE == 48000 && CHANNELS == 1,
        mono.len() == FRAME_SIZE,
        fitted(mono, fill) == mono,
        forall|i: nat|
            i < FRAME_SIZE ==> #[trigger] tap_at(FRAME_SIZE as nat, SAMPLE_RATE as nat, SAMPLE_RATE as nat, i) == (Tap::Blend {
                lo: i as usize,
                hi: (if i + 1 < FRAME_SIZE { i + 1 } else { i }) as usize,
                num: 0,
                den: SAMPLE_RATE as u64,
            }),
{
    assert(fitted(mono, fill) =~= mono);
    assert forall|i: nat| i < FRAME_SIZE implies #[trigger] tap_at(FRAME_SIZE as nat, SAMPLE_RATE as nat, SAMPLE_RATE as nat, i) == (Tap::Blend {
        lo: i as usize,
        hi: (if i + 1 < FRAME_SIZE { i + 1 } else { i }) as usize,
        num: 0,
        den: SAMPLE_RATE as u64,
    }) by {
        assert((i * 48000) / 48000 == i) by (nonlinear_arith);
        assert((i * 48000) % 48000 == 0) by (nonlinear_arith);
    }
}

} // verus!
