//! The arithmetic of the audio callbacks that move samples between sound
//! card ports and the ring buffers: interleaving the ports' buffers, the
//! sample clock of each cycle, the initial delay, and the ring buffers'
//! sizes.
//!
//! Samples are 32-bit floats carried as their bit patterns.

use vstd::prelude::*;

verus! {

/// Where the `i`-th interleaved sample of `n_channels` channels comes from:
/// its channel and its frame.
pub open spec fn interleaved_position(i: int, n_channels: int) -> (int, int) {
    (i % n_channels, i / n_channels)
}

/// The interleaved order of the samples of `n_channels` channels over
/// `n_frames` frames: frame by frame, each frame channel by channel.
pub struct Interleaved {
    n_channels: usize,
    n_frames: usize,
    remaining_frames: usize,
    current_index: usize,
}

impl Interleaved {
    /// How many positions are left to visit.
    pub closed spec fn remaining(&self) -> int {
        self.remaining_frames * self.n_channels - self.current_index
    }

    /// How many positions have been visited.
    pub closed spec fn visited(&self) -> int {
        (self.n_frames - self.remaining_frames) * self.n_channels + self.current_index
    }

    pub closed spec fn spec_n_channels(&self) -> usize {
        self.n_channels
    }

    pub closed spec fn spec_n_frames(&self) -> usize {
        self.n_frames
    }

    pub closed spec fn wf(&self) -> bool {
        &&& self.n_channels > 0
        &&& self.remaining_frames <= self.n_frames
        &&& self.current_index < self.n_channels
        &&& self.remaining_frames == 0 ==> self.current_index == 0
        &&& self.n_frames * self.n_channels <= usize::MAX
    }

    /// There are never fewer than zero positions left.
    pub proof fn lemma_remaining_nonneg(&self)
        requires
            self.wf(),
        ensures
            self.remaining() >= 0,
    {
        assert(self.remaining_frames > 0 ==> self.remaining_frames * self.n_channels >= self.n_channels) by (nonlinear_arith)
            requires self.n_channels > 0;
    }

    /// The positions visited and those left to visit are, together, all the
    /// positions: `n_frames * n_channels`.
    pub proof fn lemma_visited_and_remaining(&self)
        requires
            self.wf(),
        ensures
            self.visited() >= 0,
            self.remaining() >= 0,
            self.visited() + self.remaining() == self.spec_n_frames() * self.spec_n_channels(),
    {
        self.lemma_remaining_nonneg();
        let n = self.n_channels as int;
        let f = self.n_frames as int;
        let k = self.remaining_frames as int;
        assert((f - k) * n + k * n == f * n) by (nonlinear_arith);
        assert((f - k) * n >= 0) by (nonlinear_arith)
            requires f >= k, n > 0;
    }

    /// The positions of `n_frames` frames of `n_channels` channels, from the
    /// first.
    pub fn new(n_channels: usize, n_frames: usize) -> (r: Interleaved)
        requires
            n_channels > 0,
            n_frames * n_channels <= usize::MAX,
        ensures
            r.wf(),
            r.visited() == 0,
            r.remaining() == n_frames * n_channels,
            r.spec_n_channels() == n_channels,
            r.spec_n_frames() == n_frames,
    {
        let r = Interleaved { n_channels, n_frames, remaining_frames: n_frames, current_index: 0 };
        assert(r.visited() == 0) by (nonlinear_arith)
            requires r.visited() == (n_frames - n_frames) * n_channels + 0;
        r
    }

    /// How many positions are left to visit.
    pub fn len(&self) -> (r: usize)
        requires
            self.wf(),
        ensures
            r == self.remaining(),
    {
        proof {
            assert(self.remaining_frames * self.n_channels <= self.n_frames * self.n_channels) by (nonlinear_arith)
                requires self.remaining_frames <= self.n_frames;
            assert(self.remaining_frames > 0 ==> self.remaining_frames * self.n_channels >= self.n_channels) by (nonlinear_arith)
                requires self.n_channels > 0;
        }
        self.remaining_frames * self.n_channels - self.current_index
    }

    /// The next position (channel, frame), if any.
    pub fn next(&mut self) -> (r: Option<(usize, usize)>)
        requires
            old(self).wf(),
        ensures
            final(self).wf(),
            final(self).spec_n_channels() == old(self).spec_n_channels(),
            final(self).spec_n_frames() == old(self).spec_n_frames(),
            old(self).remaining() == 0 ==> r is None && *final(self) == *old(self),
            old(self).remaining() > 0 ==> r == Some((
                interleaved_position(old(self).visited(), old(self).spec_n_channels() as int).0 as usize,
                interleaved_position(old(self).visited(), old(self).spec_n_channels() as int).1 as usize,
            )) && final(self).visited() == old(self).visited() + 1
                && final(self).remaining() == old(self).remaining() - 1,
    {
        proof {
            assert(self.remaining_frames > 0 ==> self.remaining_frames * self.n_channels >= self.n_channels) by (nonlinear_arith)
                requires self.n_channels > 0;
        }
        if self.remaining_frames == 0 {
            return None;
        }
        let channel = self.current_index;
        let frame = self.n_frames - self.remaining_frames;
        proof {
            let v = self.visited();
            let n = self.n_channels as int;
            assert(v == frame * n + channel);
            vstd::arithmetic::div_mod::lemma_fundamental_div_mod_converse(v, n, frame as int, channel as int);
        }
        self.current_index = self.current_index + 1;
        if self.current_index == self.n_channels {
            self.current_index = 0;
            self.remaining_frames = self.remaining_frames - 1;
            proof {
                assert((self.n_frames - self.remaining_frames) * self.n_channels
                    == (frame + 1) * self.n_channels) ;
                assert((frame + 1) * self.n_channels == frame * self.n_channels + self.n_channels) by (nonlinear_arith);
                assert(self.remaining_frames * self.n_channels + self.n_channels
                    == (self.remaining_frames + 1) * self.n_channels) by (nonlinear_arith);
            }
        }
        Some((channel, frame))
    }
}

/// The samples of `channels` (one buffer of at least `n_frames` samples per
/// channel) interleaved over `n_frames` frames.
pub fn interleave(channels: &Vec<Vec<u32>>, n_frames: usize) -> (r: Vec<u32>)
    requires
        channels@.len() > 0,
        n_frames * channels@.len() <= usize::MAX,
        forall|c: int| 0 <= c < channels@.len() ==> (#[trigger] channels@[c])@.len() >= n_frames,
    ensures
        r@.len() == n_frames * channels@.len(),
        forall|i: int| 0 <= i < r@.len() ==> #[trigger] r@[i]
            == channels@[interleaved_position(i, channels@.len() as int).0]@[interleaved_position(i, channels@.len() as int).1],
{
    let n_channels = channels.len();
    let mut it = Interleaved::new(n_channels, n_frames);
    let mut out: Vec<u32> = Vec::new();
    let total = it.len();
    while out.len() < total
        invariant
            it.wf(),
            it.spec_n_channels() == n_channels,
            it.spec_n_frames() == n_frames,
            n_channels == channels@.len(),
            total == n_frames * n_channels,
            out@.len() == it.visited(),
            it.visited() + it.remaining() == total,
            forall|c: int| 0 <= c < channels@.len() ==> (#[trigger] channels@[c])@.len() >= n_frames,
            forall|i: int| 0 <= i < out@.len() ==> #[trigger] out@[i]
                == channels@[interleaved_position(i, n_channels as int).0]@[interleaved_position(i, n_channels as int).1],
        decreases it.remaining(),
    {
        let ghost v = it.visited();
        match it.next() {
            Some((c, f)) => {
                proof {
                    vstd::arithmetic::div_mod::lemma_mod_bound(v, n_channels as int);
                    assert(f < n_frames) by (nonlinear_arith)
                        requires f == v / (n_channels as int), v < n_frames * n_channels, n_channels > 0, v >= 0;
                }
                out.push(channels[c][f]);
            },
            None => {
                proof { assert(false); }
            },
        }
    }
    proof { it.lemma_remaining_nonneg(); }
    out
}

/// Splits interleaved samples into one buffer per channel, over the whole
/// frames that `samples` holds.
pub fn deinterleave(samples: &Vec<u32>, n_channels: usize) -> (r: Vec<Vec<u32>>)
    requires
        n_channels > 0,
    ensures
        r@.len() == n_channels,
        forall|c: int| 0 <= c < n_channels ==> (#[trigger] r@[c])@.len() == samples@.len() / (n_channels as nat),
        forall|c: int, f: int| 0 <= c < n_channels && 0 <= f < samples@.len() / (n_channels as nat)
            ==> #[trigger] r@[c]@[f] == samples@[f * n_channels + c],
{
    let n_frames = samples.len() / n_channels;
    let mut r: Vec<Vec<u32>> = Vec::new();
    let mut c: usize = 0;
    while c < n_channels
        invariant
            c <= n_channels,
            n_channels > 0,
            n_frames == samples@.len() / (n_channels as nat),
            samples@.len() <= usize::MAX,
            r@.len() == c,
            forall|k: int| 0 <= k < c ==> (#[trigger] r@[k])@.len() == n_frames,
            forall|k: int, f: int| 0 <= k < c && 0 <= f < n_frames ==> #[trigger] r@[k]@[f] == samples@[f * n_channels + k],
        decreases n_channels - c,
    {
        let mut channel: Vec<u32> = Vec::new();
        let mut f: usize = 0;
        while f < n_frames
            invariant
                f <= n_frames,
                c < n_channels,
                n_frames == samples@.len() / (n_channels as nat),
                samples@.len() <= usize::MAX,
                channel@.len() == f,
                forall|g: int| 0 <= g < f ==> #[trigger] channel@[g] == samples@[g * n_channels + c],
            decreases n_frames - f,
        {
            proof {
                assert(f * n_channels + c < samples@.len()) by (nonlinear_arith)
                    requires
                        f < n_frames,
                        c < n_channels,
                        n_frames == samples@.len() / (n_channels as nat),
                        n_channels > 0;
            }
            channel.push(samples[f * n_channels + c]);
            f = f + 1;
        }
        r.push(channel);
        c = c + 1;
    }
    r
}

/// The initial delay of a stream, in samples, that the first cycles consume
/// by leaving their first samples silent.
pub struct DelayLine {
    remaining: usize,
}

impl DelayLine {
    pub closed spec fn spec_remaining(&self) -> usize {
        self.remaining
    }

    /// A delay of `samples` samples.
    pub fn new(samples: usize) -> (r: DelayLine)
        ensures
            r.spec_remaining() == samples,
    {
        DelayLine { remaining: samples }
    }

    /// How many of a cycle's `available` samples stay silent: as much of
    /// the delay as they cover, which is consumed.
    pub fn take(&mut self, available: usize) -> (r: usize)
        ensures
            r == if old(self).spec_remaining() < available { old(self).spec_remaining() } else { available },
            final(self).spec_remaining() == old(self).spec_remaining() - r,
    {
        let d = if self.remaining < available { self.remaining } else { available };
        self.remaining = self.remaining - d;
        d
    }
}

/// Writes `samples` into `out` after the first `delay` positions, as far as
/// both go; the other positions keep what they held.
pub fn write_after_delay(out: &mut Vec<u32>, delay: usize, samples: &Vec<u32>)
    requires
        delay <= old(out)@.len(),
    ensures
        final(out)@.len() == old(out)@.len(),
        forall|i: int| 0 <= i < old(out)@.len() ==> #[trigger] final(out)@[i] == if delay <= i < delay + samples@.len() {
            samples@[i - delay]
        } else {
            old(out)@[i]
        },
{
    let mut k: usize = 0;
    while k < samples.len() && k < out.len() - delay
        invariant
            delay <= out@.len(),
            out@.len() == old(out)@.len(),
            k <= samples@.len(),
            delay + k <= out@.len(),
            forall|i: int| 0 <= i < out@.len() ==> #[trigger] out@[i] == if delay <= i < delay + k {
                samples@[i - delay]
            } else {
                old(out)@[i]
            },
        decreases samples@.len() - k,
    {
        out.set(delay + k, samples[k]);
        k = k + 1;
    }
}

/// The index, in samples, of the first sample of a cycle: the frames since
/// the first cycle times the number of channels.
pub fn timer_timestamp(zero: u64, jack_timestamp: u64, n_channels: usize) -> (r: u64)
    requires
        zero <= jack_timestamp,
        (jack_timestamp - zero) * n_channels <= u64::MAX,
    ensures
        r == (jack_timestamp - zero) * n_channels,
{
    (jack_timestamp - zero) * (n_channels as u64)
}

/// The frame clock of a stream's callbacks: the frame time of the first
/// cycle is its zero.
pub struct CycleClock {
    zero: Option<u64>,
}

impl CycleClock {
    pub closed spec fn spec_zero(&self) -> Option<u64> {
        self.zero
    }

    /// A clock before its first cycle.
    pub fn new() -> (r: CycleClock)
        ensures
            r.spec_zero() is None,
    {
        CycleClock { zero: None }
    }

    /// The zero of the clock, fixed at the first cycle's frame time.
    pub fn zero(&mut self, frame_time: u64) -> (r: u64)
        ensures
            r == match old(self).spec_zero() {
                Some(z) => z,
                None => frame_time,
            },
            final(self).spec_zero() == Some(r),
    {
        match self.zero {
            Some(z) => z,
            None => {
                self.zero = Some(frame_time);
                frame_time
            },
        }
    }
}

/// The number of frames lasting `nanos` nanoseconds at `sample_rate`
/// frames per second, rounded down.
pub fn frames_in(nanos: u128, sample_rate: u128) -> (r: u128)
    requires
        nanos * sample_rate <= u128::MAX,
    ensures
        r == nanos * sample_rate / 1_000_000_000,
{
    nanos * sample_rate / 1_000_000_000
}

/// The size in samples of a ring buffer holding `frames` frames of
/// `n_channels` channels.
pub fn samples_of_frames(frames: usize, n_channels: usize) -> (r: usize)
    requires
        frames * n_channels <= usize::MAX,
    ensures
        r == frames * n_channels,
{
    frames * n_channels
}

/// Whether `a * b` fits under `max`, decided by a division: for a positive
/// `b`, `a <= max / b` exactly when `a * b <= max`.
proof fn lemma_fits_by_division(a: int, b: int, max: int)
    requires
        a >= 0,
        b > 0,
        max >= 0,
    ensures
        (a <= max / b) == (a * b <= max),
{
    let q = max / b;
    let r = max % b;
    assert(max == q * b + r && 0 <= r < b) by {
        vstd::arithmetic::div_mod::lemma_fundamental_div_mod(max, b);
    }
    assert((q + 1) * b == q * b + b) by (nonlinear_arith);
    if a <= q {
        assert(a * b <= q * b) by (nonlinear_arith)
            requires a <= q, b > 0;
    } else {
        assert(a * b >= (q + 1) * b) by (nonlinear_arith)
            requires a >= q + 1, b > 0;
    }
}

/// The size in samples of a ring buffer lasting `nanos` nanoseconds at
/// `sample_rate` frames per second, for `n_channels` channels: the frames it
/// lasts (rounded down) times the channels, or `None` when a product
/// overflows or the frame count does not fit in a `usize`.
pub fn ring_samples(nanos: u128, sample_rate: u32, n_channels: usize) -> (r: Option<usize>)
    ensures
        r is Some <==> {
            &&& nanos * sample_rate <= u128::MAX
            &&& nanos * sample_rate / 1_000_000_000 <= usize::MAX
            &&& (nanos * sample_rate / 1_000_000_000) * n_channels <= usize::MAX
        },
        r matches Some(n) ==> n == (nanos * sample_rate / 1_000_000_000) * n_channels,
{
    let sr = sample_rate as u128;
    if sr != 0 && nanos > u128::MAX / sr {
        proof { lemma_fits_by_division(nanos as int, sr as int, u128::MAX as int); }
        return None;
    }
    proof {
        if sr != 0 {
            lemma_fits_by_division(nanos as int, sr as int, u128::MAX as int);
        }
    }
    let frames = frames_in(nanos, sr);
    if frames > usize::MAX as u128 {
        return None;
    }
    let f = frames as usize;
    if n_channels != 0 && f > usize::MAX / n_channels {
        proof { lemma_fits_by_division(f as int, n_channels as int, usize::MAX as int); }
        return None;
    }
    proof {
        if n_channels != 0 {
            lemma_fits_by_division(f as int, n_channels as int, usize::MAX as int);
        }
    }
    Some(samples_of_frames(f, n_channels))
}

} // verus!
