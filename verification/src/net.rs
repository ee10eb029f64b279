//! Audio configuration, sample timing, and the ring-buffer senders and
//! receivers that align a stream of samples to a timeline of sample indices,
//! padding gaps with silence and skipping samples that come too late.
//!
//! Samples are 32-bit floats carried as their bit patterns; silence is 0.

use vstd::prelude::*;
use crate::queue::{Waker, grown_by, lemma_shift_seq_index, shift_seq};
use crate::ring::{RingRx, RingTx, consumer_ring_capacity, producer_ring_capacity, consumer_capacity, consumer_is_abandoned, consumer_read_chunk, consumer_slots, producer_capacity, producer_is_abandoned, producer_slots, producer_write_chunk};

verus! {

/// A count that is known to be positive.
pub fn nz(x: usize) -> (r: usize)
    requires
        x > 0,
    ensures
        r == x,
{
    x
}

/// The size in bytes of a sample.
pub const SAMPLE_SIZE: usize = 4;

/// A server's audio configuration: a positive number of channels and a
/// positive buffer size in frames.
#[derive(Clone, Copy, Debug, PartialEq, Eq, Structural)]
pub struct AudioConfig {
    n_channels: u32,
    buffer_size_frames: u32,
}

impl AudioConfig {
    #[verifier::type_invariant]
    spec fn positive(self) -> bool {
        self.n_channels > 0 && self.buffer_size_frames > 0
    }

    pub closed spec fn spec_n_channels(self) -> u32 {
        self.n_channels
    }

    pub closed spec fn spec_chunk_size_frames(self) -> u32 {
        self.buffer_size_frames
    }

    /// A configuration of `n_channels` channels and buffers of
    /// `buffer_size_frames` frames.
    pub fn new(n_channels: u32, buffer_size_frames: u32) -> (r: AudioConfig)
        requires
            n_channels > 0,
            buffer_size_frames > 0,
        ensures
            r.spec_n_channels() == n_channels,
            r.spec_chunk_size_frames() == buffer_size_frames,
    {
        AudioConfig { n_channels, buffer_size_frames }
    }

    /// The number of channels (positive).
    pub fn n_channels(&self) -> (r: u32)
        ensures
            r == self.spec_n_channels(),
            r > 0,
    {
        proof { use_type_invariant(self); }
        self.n_channels
    }

    /// The buffer size in frames (positive).
    pub fn chunk_size_frames(&self) -> (r: u32)
        ensures
            r == self.spec_chunk_size_frames(),
            r > 0,
    {
        proof { use_type_invariant(self); }
        self.buffer_size_frames
    }

    /// The buffer size in samples: frames times channels.
    pub fn chunk_size_samples(&self) -> (r: u32)
        requires
            self.spec_chunk_size_frames() * self.spec_n_channels() <= u32::MAX,
        ensures
            r == self.spec_chunk_size_frames() * self.spec_n_channels(),
            r > 0,
    {
        proof {
            use_type_invariant(self);
            assert(self.buffer_size_frames * self.n_channels > 0) by (nonlinear_arith)
                requires self.buffer_size_frames > 0, self.n_channels > 0;
        }
        self.buffer_size_frames * self.n_channels
    }
}

/// A sample counter.
#[derive(Clone, Copy, Debug, PartialEq, Eq, Structural)]
pub struct Counter {
    curr: u64,
}

/// How far a sample index lies from a counter: `None` when they agree, else
/// whether the index is behind the counter and by how much. `Err` when the
/// distance does not fit in a `usize`.
pub open spec fn spec_drift(current: u64, next_idx: u64) -> Result<Option<(bool, nat)>, ()> {
    let abs: nat = if next_idx < current { (current - next_idx) as nat } else { (next_idx - current) as nat };
    if abs > usize::MAX {
        Err(())
    } else if abs == 0 {
        Ok(None)
    } else {
        Ok(Some((next_idx < current, abs)))
    }
}

/// The offset of a sample index from a counter does not fit in a `usize`.
#[derive(Clone, Copy, Debug, PartialEq, Eq, Structural)]
pub struct DriftTooLarge;

/// The signed, nonzero offset of a sample index from a counter.
#[derive(Clone, Copy, Debug, PartialEq, Eq, Structural)]
pub struct Drift {
    negative: bool,
    abs: usize,
}

impl Drift {
    pub closed spec fn spec_negative(self) -> bool {
        self.negative
    }

    pub closed spec fn spec_abs(self) -> usize {
        self.abs
    }

    /// The offset of `next_idx` from `timer`.
    pub fn new(timer: &Counter, next_idx: u64) -> (r: Result<Option<Drift>, DriftTooLarge>)
        ensures
            match spec_drift(timer.value(), next_idx) {
                Err(()) => r is Err,
                Ok(None) => r == Ok::<Option<Drift>, DriftTooLarge>(None),
                Ok(Some((neg, abs))) => r matches Ok(Some(d)) && d.spec_negative() == neg && d.spec_abs() == abs,
            },
    {
        let c = timer.current();
        let abs = if next_idx < c { c - next_idx } else { next_idx - c };
        if abs > usize::MAX as u64 {
            Err(DriftTooLarge)
        } else if abs == 0 {
            Ok(None)
        } else {
            Ok(Some(Drift { negative: next_idx < c, abs: abs as usize }))
        }
    }

    /// Whether the index is behind the counter.
    pub fn is_negative(&self) -> (r: bool)
        ensures
            r == self.spec_negative(),
    {
        self.negative
    }

    /// The distance between the index and the counter.
    pub fn abs(&self) -> (r: usize)
        ensures
            r == self.spec_abs(),
    {
        self.abs
    }
}

impl Counter {
    pub closed spec fn value(&self) -> u64 {
        self.curr
    }

    /// A counter at zero.
    pub fn new() -> (r: Counter)
        ensures
            r.value() == 0,
    {
        Counter { curr: 0 }
    }

    /// The current value.
    pub fn current(&self) -> (r: u64)
        ensures
            r == self.value(),
    {
        self.curr
    }

    /// How far into the current chunk of `chunk_size` samples the counter is.
    pub fn chunk_time(&self, chunk_size: usize) -> (r: usize)
        requires
            chunk_size > 0,
        ensures
            r == (self.value() as int) % (chunk_size as int),
            r < chunk_size,
    {
        let c = chunk_size as u64;
        let t = self.curr % c;
        proof {
            assert(t < c) by (nonlinear_arith) requires t == self.curr % c, c > 0;
        }
        t as usize
    }

    /// How many samples are left until the end of the current chunk of
    /// `chunk_size` samples (at least one).
    pub fn remaining_chunk_time(&self, chunk_size: usize) -> (r: usize)
        requires
            chunk_size > 0,
        ensures
            r == chunk_size - (self.value() as int) % (chunk_size as int),
            0 < r <= chunk_size,
    {
        chunk_size - self.chunk_time(chunk_size)
    }

    /// Advances the counter by `time` samples.
    pub fn advance(&mut self, time: usize)
        requires
            old(self).value() + time <= u64::MAX,
        ensures
            final(self).value() == old(self).value() + time,
    {
        self.curr = self.curr + time as u64;
    }

    /// Sets the counter.
    pub fn set_value(&mut self, val: u64)
        ensures
            final(self).value() == val,
    {
        self.curr = val;
    }

    /// The offset of `next_idx` from the counter.
    pub fn drift(&self, next_idx: u64) -> (r: Result<Option<Drift>, DriftTooLarge>)
        ensures
            match spec_drift(self.value(), next_idx) {
                Err(()) => r is Err,
                Ok(None) => r == Ok::<Option<Drift>, DriftTooLarge>(None),
                Ok(Some((neg, abs))) => r matches Ok(Some(d)) && d.spec_negative() == neg && d.spec_abs() == abs,
            },
    {
        Drift::new(self, next_idx)
    }
}

/// A waker that went from `before` to `after`, told of one wake event when
/// `reaches` holds and left alone otherwise.
pub open spec fn woken_once_if<W: Waker>(before: W, after: W, reaches: bool) -> bool {
    if reaches { before.woken_to(&after, 1) } else { after == before }
}

/// Whether advancing a counter at `value` by `delta` reaches the end of the
/// current chunk of `chunk_size` samples.
pub open spec fn reaches_chunk_end(value: u64, delta: usize, chunk_size: usize) -> bool {
    delta >= chunk_size - (value as int) % (chunk_size as int)
}

/// Reaching the end of the current chunk is crossing a chunk boundary: the
/// chunk the counter is in changes.
pub proof fn lemma_chunk_end_is_boundary(value: u64, delta: usize, chunk_size: usize)
    requires
        chunk_size > 0,
    ensures
        reaches_chunk_end(value, delta, chunk_size)
            == ((value + delta) / (chunk_size as int) > (value as int) / (chunk_size as int)),
{
    let c = chunk_size as int;
    let v = value as int;
    let d = delta as int;
    assert(reaches_chunk_end(value, delta, chunk_size) == ((v + d) / c > v / c)) by (nonlinear_arith)
        requires
            c > 0,
            v >= 0,
            d >= 0,
            reaches_chunk_end(value, delta, chunk_size) == (d >= c - v % c),
    {
        let q = v / c;
        let r = v % c;
        assert(v == q * c + r);
        assert(0 <= r < c);
        if d >= c - r {
            assert(v + d >= (q + 1) * c);
            assert((v + d) / c >= q + 1);
        } else {
            assert(v + d < (q + 1) * c);
            assert(v + d >= q * c);
            assert((v + d) / c == q);
        }
    }
}

/// A sample counter that wakes its waker each time an advance reaches the
/// end of a chunk of `chunk_size` samples.
pub struct WakingCounter<W> {
    counter: Counter,
    waker: W,
    chunk_size: usize,
}

impl<W> WakingCounter<W> {
    pub closed spec fn value(&self) -> u64 {
        self.counter.value()
    }

    pub closed spec fn spec_chunk_size(&self) -> usize {
        self.chunk_size
    }

    /// The waker that the counter holds.
    pub closed spec fn spec_waker(&self) -> W {
        self.waker
    }

    /// A counter at zero with the given waker and chunk size.
    pub fn with_waker(waker: W, chunk_size: usize) -> (r: Self)
        requires
            chunk_size > 0,
        ensures
            r.value() == 0,
            r.spec_chunk_size() == chunk_size,
            r.spec_waker() == waker,
    {
        WakingCounter { counter: Counter::new(), waker, chunk_size }
    }

    /// The chunk size in samples.
    pub fn chunk_size_samples(&self) -> (r: usize)
        ensures
            r == self.spec_chunk_size(),
    {
        self.chunk_size
    }

    /// Changes the chunk size.
    pub fn set_chunk_size_samples(&mut self, chunk_size: usize)
        requires
            chunk_size > 0,
        ensures
            final(self).spec_chunk_size() == chunk_size,
            final(self).value() == old(self).value(),
    {
        self.chunk_size = chunk_size;
    }

    /// The waker.
    pub fn waker(&self) -> (r: &W)
        ensures
            *r == self.spec_waker(),
    {
        &self.waker
    }

    /// Sets the counter.
    pub fn set_value(&mut self, val: u64)
        ensures
            final(self).value() == val,
            final(self).spec_chunk_size() == old(self).spec_chunk_size(),
            final(self).spec_waker() == old(self).spec_waker(),
    {
        self.counter.set_value(val);
    }

    /// The counter's value.
    pub fn get_value(&self) -> (r: u64)
        ensures
            r == self.value(),
    {
        self.counter.current()
    }

    /// The offset of `next_idx` from the counter.
    pub fn drift(&self, next_idx: u64) -> (r: Result<Option<Drift>, DriftTooLarge>)
        ensures
            match spec_drift(self.value(), next_idx) {
                Err(()) => r is Err,
                Ok(None) => r == Ok::<Option<Drift>, DriftTooLarge>(None),
                Ok(Some((neg, abs))) => r matches Ok(Some(d)) && d.spec_negative() == neg && d.spec_abs() == abs,
            },
    {
        self.counter.drift(next_idx)
    }
}

impl WakingCounter<()> {
    /// A counter at zero whose waker wakes nobody: its chunks are as long as possible.
    pub fn new() -> (r: Self)
        ensures
            r.value() == 0,
            r.spec_chunk_size() == usize::MAX,
    {
        WakingCounter::with_waker((), usize::MAX)
    }
}

impl<W: Waker> WakingCounter<W> {
    /// Advances the counter by `delta` samples, waking the waker once when
    /// that reaches the end of the current chunk.
    pub fn advance_timer(&mut self, delta: usize)
        requires
            old(self).spec_chunk_size() > 0,
            old(self).value() + delta <= u64::MAX,
        ensures
            final(self).value() == old(self).value() + delta,
            final(self).spec_chunk_size() == old(self).spec_chunk_size(),
            woken_once_if(old(self).spec_waker(), final(self).spec_waker(),
                reaches_chunk_end(old(self).value(), delta, old(self).spec_chunk_size())),
    {
        let rem = self.counter.remaining_chunk_time(self.chunk_size);
        if delta >= rem {
            self.waker.wake(1);
        }
        self.counter.advance(delta);
    }
}

/// `items` aligned to a timeline: `pad` silent samples first, then the
/// samples that remain once the first `skip` are dropped.
pub open spec fn aligned(items: Seq<u32>, pad: nat, skip: nat) -> Seq<u32> {
    Seq::new(pad, |i: int| 0u32) + if skip >= items.len() {
        Seq::<u32>::empty()
    } else {
        items.subrange(skip as int, items.len() as int)
    }
}

/// The silence to add before a sample stream and the samples to drop from
/// it, so that a stream starting at `start` continues a counter at `counter`.
pub open spec fn pad_and_skip(counter: u64, start: u64) -> (nat, nat) {
    if start >= counter { ((start - counter) as nat, 0nat) } else { (0nat, (counter - start) as nat) }
}

/// `r` is what a receive answers when it reads `items` with its counter at
/// `counter`, asked for index `sample_idx`: the samples aligned to the index,
/// as far as a vector holds them.
pub open spec fn received_as(items: Seq<u32>, counter: u64, sample_idx: u64, r: Seq<u32>) -> bool {
    let (skip, pad) = pad_and_skip(counter, sample_idx);
    let full = aligned(items, pad, skip);
    r == full.take(if full.len() <= usize::MAX { full.len() as int } else { usize::MAX as int })
}

/// `r` is what a receive of at most `max_out` samples answers when it reads
/// `items` with its counter at `counter`, asked for index `sample_idx`.
pub open spec fn received_as_up_to(items: Seq<u32>, counter: u64, sample_idx: u64, max_out: usize, r: Seq<u32>) -> bool {
    let (skip, pad) = pad_and_skip(counter, sample_idx);
    let full = aligned(items, pad, skip);
    &&& r == full.take(if full.len() <= max_out { full.len() as int } else { max_out as int })
    &&& items.len() <= skip + (max_out - if pad < max_out { pad } else { max_out as nat })
}

/// Aligning samples to a counter is shifting them by the distance between
/// the counter and their start, with silence as the pad: for a send, the
/// counter minus the first sample's index; for a receive, the index asked
/// for minus the counter.
pub proof fn lemma_aligned_is_shift(items: Seq<u32>, counter: u64, start: u64)
    ensures
        ({
            let (pad, skip) = pad_and_skip(counter, start);
            aligned(items, pad, skip) == shift_seq(items, counter - start, 0u32)
        }),
        ({
            let (skip, pad) = pad_and_skip(counter, start);
            aligned(items, pad, skip) == shift_seq(items, start - counter, 0u32)
        }),
{
    let (a, b) = pad_and_skip(counter, start);
    assert(aligned(items, a, b) =~= shift_seq(items, counter - start, 0u32));
    assert(aligned(items, b, a) =~= shift_seq(items, start - counter, 0u32));
}

/// A sample keeps its index through a ring buffer: the sample that
/// `Sender::send` writes for index `i` is the one that `Receiver::recv`
/// gives back for index `i`.
///
/// Both counters count from `base`, the index of the ring buffer's first
/// sample, and `stream` is every sample the ring buffer carried, in order,
/// so that what was written and what was read are both prefixes of it. The
/// send, with its counter at `tx_counter`, wrote `written` samples of
/// `samples` (whose first has index `timestamp`) after `pushed`; the
/// receive, with its counter at `rx_counter`, read `read` after `popped` and
/// was asked for the index `sample_idx`.
pub proof fn law_sample_keeps_its_index(
    stream: Seq<u32>,
    base: int,
    pushed: Seq<u32>,
    tx_counter: u64,
    samples: Seq<u32>,
    timestamp: u64,
    written: int,
    popped: Seq<u32>,
    rx_counter: u64,
    read: Seq<u32>,
    sample_idx: u64,
    i: int,
)
    requires
        pushed.len() == tx_counter - base,
        0 <= written <= aligned(samples, pad_and_skip(tx_counter, timestamp).0, pad_and_skip(tx_counter, timestamp).1).len(),
        (pushed + aligned(samples, pad_and_skip(tx_counter, timestamp).0, pad_and_skip(tx_counter, timestamp).1).take(written))
            .is_prefix_of(stream),
        popped.len() == rx_counter - base,
        (popped + read).is_prefix_of(stream),
        tx_counter <= i < tx_counter + written,
        timestamp <= i,
        rx_counter <= i < rx_counter + read.len(),
        sample_idx <= i,
    ensures
        ({
            let (skip, pad) = pad_and_skip(rx_counter, sample_idx);
            &&& i - timestamp < samples.len()
            &&& i - sample_idx < aligned(read, pad, skip).len()
            &&& aligned(read, pad, skip)[i - sample_idx] == samples[i - timestamp]
        }),
{
    lemma_aligned_is_shift(samples, tx_counter, timestamp);
    lemma_aligned_is_shift(read, rx_counter, sample_idx);
    let sent = shift_seq(samples, tx_counter - timestamp, 0u32);
    let got = shift_seq(read, sample_idx - rx_counter, 0u32);
    lemma_shift_seq_index(samples, tx_counter - timestamp, 0u32, i - tx_counter);
    assert(read.len() - (sample_idx - rx_counter) > i - sample_idx);
    lemma_shift_seq_index(read, sample_idx - rx_counter, 0u32, i - sample_idx);
    let w = pushed + sent.take(written);
    let q = popped + read;
    assert(w[i - base] == sent[i - tx_counter]);
    assert(q[i - base] == read[i - rx_counter]);
    assert(stream[i - base] == w[i - base]);
    assert(stream[i - base] == q[i - base]);
}

/// The first `limit` samples of `aligned(items, pad, skip)`.
fn aligned_prefix(items: &Vec<u32>, pad: usize, skip: usize, limit: usize) -> (r: Vec<u32>)
    ensures
        r@ == aligned(items@, pad as nat, skip as nat).take(
            if limit < aligned(items@, pad as nat, skip as nat).len() { limit as int } else {
                aligned(items@, pad as nat, skip as nat).len() as int
            }),
{
    let ghost full = aligned(items@, pad as nat, skip as nat);
    let mut out: Vec<u32> = Vec::new();
    let n_pad = if pad < limit { pad } else { limit };
    let mut i: usize = 0;
    while i < n_pad
        invariant
            i <= n_pad,
            n_pad <= pad,
            n_pad <= limit,
            out@ == Seq::new(i as nat, |k: int| 0u32),
        decreases n_pad - i,
    {
        out.push(0);
        i = i + 1;
        proof { assert(out@ =~= Seq::new(i as nat, |k: int| 0u32)); }
    }
    if n_pad == pad && skip < items.len() {
        let mut j: usize = skip;
        while j < items.len() && out.len() < limit
            invariant
                skip <= j <= items@.len(),
                n_pad == pad,
                pad <= limit,
                out.len() == pad + (j - skip),
                out.len() <= limit,
                out@ == Seq::new(pad as nat, |k: int| 0u32) + items@.subrange(skip as int, j as int),
            decreases items@.len() - j,
        {
            out.push(items[j]);
            j = j + 1;
            proof {
                assert(out@ =~= Seq::new(pad as nat, |k: int| 0u32) + items@.subrange(skip as int, j as int));
            }
        }
        proof {
            assert(out@ =~= full.take(out.len() as int));
        }
    } else {
        proof {
            assert(out@ =~= full.take(out.len() as int));
        }
    }
    out
}

/// How many more samples a counter at `current` can take.
fn room_left(current: u64, want: usize) -> (r: usize)
    ensures
        r <= want,
        current + r <= u64::MAX,
        r == want || current + want > u64::MAX,
{
    let room = u64::MAX - current;
    if (want as u64) <= room {
        want
    } else {
        room as usize
    }
}

/// Sends samples into a ring buffer, aligned to its sample counter: the
/// counter stands for the index of the next sample the ring buffer gets.
#[verifier::reject_recursive_types(W)]
pub struct Sender<W> {
    tx: RingTx<u32>,
    counter: WakingCounter<W>,
}

impl Sender<()> {
    /// A sender over `tx` with its counter at zero and a waker that wakes nobody.
    pub fn new(tx: rtrb::Producer<u32>) -> (r: Self)
        ensures
            r.counter_value() == 0,
            r.chunk_size() == usize::MAX,
            r.ring_capacity() == producer_ring_capacity(tx),
            r.pushed() == Seq::<u32>::empty(),
    {
        Sender { tx: RingTx::new(tx), counter: WakingCounter::new() }
    }
}

impl<W> Sender<W> {
    pub closed spec fn counter_value(&self) -> u64 {
        self.counter.value()
    }

    pub closed spec fn chunk_size(&self) -> usize {
        self.counter.spec_chunk_size()
    }

    /// The capacity of the ring buffer, in samples.
    pub closed spec fn ring_capacity(&self) -> usize {
        producer_ring_capacity(self.tx.raw())
    }

    /// The samples written into the ring buffer so far, oldest first.
    pub closed spec fn pushed(&self) -> Seq<u32> {
        self.tx.pushed()
    }

    /// The waker that the counter wakes.
    pub closed spec fn waker_spec(&self) -> W {
        self.counter.spec_waker()
    }

    /// A sender over `tx` that wakes `waker` every `chunk_size` samples.
    pub fn with_waker(tx: rtrb::Producer<u32>, waker: W, chunk_size: usize) -> (r: Self)
        requires
            chunk_size > 0,
        ensures
            r.counter_value() == 0,
            r.chunk_size() == chunk_size,
            r.ring_capacity() == producer_ring_capacity(tx),
            r.pushed() == Seq::<u32>::empty(),
            r.waker_spec() == waker,
    {
        Sender { tx: RingTx::new(tx), counter: WakingCounter::with_waker(waker, chunk_size) }
    }

    /// Sets the sample counter.
    pub fn set_counter_value(&mut self, val: u64)
        ensures
            final(self).counter_value() == val,
            final(self).chunk_size() == old(self).chunk_size(),
            final(self).ring_capacity() == old(self).ring_capacity(),
            final(self).pushed() == old(self).pushed(),
            final(self).waker_spec() == old(self).waker_spec(),
    {
        self.counter.set_value(val);
    }

    /// The sample counter.
    pub fn get_counter_value(&self) -> (r: u64)
        ensures
            r == self.counter_value(),
    {
        self.counter.get_value()
    }

    /// Whether the receiving side has been dropped.
    pub fn is_abandoned(&self) -> bool {
        producer_is_abandoned(&self.tx)
    }

    /// The capacity of the ring buffer, in samples.
    pub fn capacity_samples(&self) -> (r: usize)
        ensures
            r == self.ring_capacity(),
    {
        producer_capacity(&self.tx)
    }

    /// The number of samples that can be written at the time of the call.
    pub fn available_samples(&self) -> usize {
        producer_slots(&self.tx)
    }

    /// The waker.
    pub fn waker(&self) -> (r: &W)
        ensures
            *r == self.waker_spec(),
    {
        self.counter.waker()
    }
}

impl<W: Waker> Sender<W> {
    /// Writes `samples`, the first of which has index `timestamp`, aligned to
    /// the counter: a gap between the counter and `timestamp` is filled with
    /// silence, and samples behind the counter are dropped. As many aligned
    /// samples as there is room for are written, in order; the counter
    /// advances by their number, which is returned.
    pub fn send(&mut self, timestamp: u64, samples: Vec<u32>) -> (r: usize)
        requires
            old(self).chunk_size() > 0,
            spec_drift(old(self).counter_value(), timestamp) is Ok,
        ensures
            ({
                let (pad, skip) = pad_and_skip(old(self).counter_value(), timestamp);
                &&& r <= aligned(samples@, pad, skip).len()
                &&& final(self).pushed() == old(self).pushed() + aligned(samples@, pad, skip).take(r as int)
            }),
            final(self).counter_value() - final(self).pushed().len()
                == old(self).counter_value() - old(self).pushed().len(),
            final(self).counter_value() == old(self).counter_value() + r,
            final(self).chunk_size() == old(self).chunk_size(),
            woken_once_if(old(self).waker_spec(), final(self).waker_spec(),
                reaches_chunk_end(old(self).counter_value(), r, old(self).chunk_size())),
    {
        let current = self.counter.get_value();
        let (pad, skip): (usize, usize) = match self.counter.drift(timestamp) {
            Ok(Some(d)) => if d.is_negative() { (0, d.abs()) } else { (d.abs(), 0) },
            _ => (0, 0),
        };
        let free = producer_slots(&self.tx);
        let n = room_left(current, free);
        let out = aligned_prefix(&samples, pad, skip, n);
        let ghost sent = out@;
        let written = match producer_write_chunk(&mut self.tx, n, out) {
            Some(k) => k,
            None => 0,
        };
        proof {
            let (p, k) = pad_and_skip(current, timestamp);
            assert(sent.take(written as int) =~= aligned(samples@, p, k).take(written as int));
        }
        self.counter.advance_timer(written);
        written
    }
}

/// Receives samples from a ring buffer, aligned to its sample counter: the
/// counter stands for the index of the next sample the ring buffer gives.
#[verifier::reject_recursive_types(W)]
pub struct Receiver<W> {
    rx: RingRx<u32>,
    counter: WakingCounter<W>,
}

impl Receiver<()> {
    /// A receiver over `rx` with its counter at zero and a waker that wakes nobody.
    pub fn new(rx: rtrb::Consumer<u32>) -> (r: Self)
        ensures
            r.counter_value() == 0,
            r.chunk_size() == usize::MAX,
            r.ring_capacity() == consumer_ring_capacity(rx),
            r.popped() == Seq::<u32>::empty(),
    {
        Receiver { rx: RingRx::new(rx), counter: WakingCounter::new() }
    }
}

impl<W> Receiver<W> {
    pub closed spec fn counter_value(&self) -> u64 {
        self.counter.value()
    }

    pub closed spec fn chunk_size(&self) -> usize {
        self.counter.spec_chunk_size()
    }

    /// The capacity of the ring buffer, in samples.
    pub closed spec fn ring_capacity(&self) -> usize {
        consumer_ring_capacity(self.rx.raw())
    }

    /// The samples taken from the ring buffer so far, oldest first.
    pub closed spec fn popped(&self) -> Seq<u32> {
        self.rx.popped()
    }

    /// The waker that the counter wakes.
    pub closed spec fn waker_spec(&self) -> W {
        self.counter.spec_waker()
    }

    /// A receiver over `rx` that wakes `waker` every `chunk_size` samples.
    pub fn with_waker(rx: rtrb::Consumer<u32>, waker: W, chunk_size: usize) -> (r: Self)
        requires
            chunk_size > 0,
        ensures
            r.counter_value() == 0,
            r.chunk_size() == chunk_size,
            r.ring_capacity() == consumer_ring_capacity(rx),
            r.popped() == Seq::<u32>::empty(),
            r.waker_spec() == waker,
    {
        Receiver { rx: RingRx::new(rx), counter: WakingCounter::with_waker(waker, chunk_size) }
    }

    /// Sets the sample counter.
    pub fn set_counter_value(&mut self, val: u64)
        ensures
            final(self).counter_value() == val,
            final(self).chunk_size() == old(self).chunk_size(),
            final(self).ring_capacity() == old(self).ring_capacity(),
            final(self).popped() == old(self).popped(),
            final(self).waker_spec() == old(self).waker_spec(),
    {
        self.counter.set_value(val);
    }

    /// The sample counter.
    pub fn get_counter_value(&self) -> (r: u64)
        ensures
            r == self.counter_value(),
    {
        self.counter.get_value()
    }

    /// Whether the sending side has been dropped.
    pub fn is_abandoned(&self) -> bool {
        consumer_is_abandoned(&self.rx)
    }

    /// The capacity of the ring buffer, in samples.
    pub fn capacity_samples(&self) -> (r: usize)
        ensures
            r == self.ring_capacity(),
    {
        consumer_capacity(&self.rx)
    }

    /// The number of samples that can be read at the time of the call.
    pub fn n_available_samples(&self) -> usize {
        consumer_slots(&self.rx)
    }

    /// The waker.
    pub fn waker(&self) -> (r: &W)
        ensures
            *r == self.waker_spec(),
    {
        self.counter.waker()
    }
}

impl<W: Waker> Receiver<W> {
    /// Reads every sample available and returns them aligned so that the
    /// first has index `sample_idx`: when `sample_idx` is behind the counter
    /// silence comes first, and when it is ahead the samples in between are
    /// dropped. The counter advances by the number of samples read.
    pub fn recv(&mut self, sample_idx: u64) -> (r: Vec<u32>)
        requires
            old(self).chunk_size() > 0,
            spec_drift(old(self).counter_value(), sample_idx) is Ok,
        ensures
            final(self).popped() == old(self).popped() + grown_by(old(self).popped(), final(self).popped()),
            final(self).counter_value() - final(self).popped().len()
                == old(self).counter_value() - old(self).popped().len(),
            ({
                let items = grown_by(old(self).popped(), final(self).popped());
                &&& received_as(items, old(self).counter_value(), sample_idx, r@)
                &&& final(self).counter_value() == old(self).counter_value() + items.len()
                &&& woken_once_if(old(self).waker_spec(), final(self).waker_spec(),
                    reaches_chunk_end(old(self).counter_value(), items.len() as usize, old(self).chunk_size()))
            }),
            final(self).chunk_size() == old(self).chunk_size(),
    {
        let current = self.counter.get_value();
        let (pad, skip): (usize, usize) = match self.counter.drift(sample_idx) {
            Ok(Some(d)) => if d.is_negative() { (d.abs(), 0) } else { (0, d.abs()) },
            _ => (0, 0),
        };
        let available = consumer_slots(&self.rx);
        let n = room_left(current, available);
        let items = match consumer_read_chunk(&mut self.rx, n) {
            Some(v) => v,
            None => Vec::new(),
        };
        proof {
            assert(grown_by(old(self).popped(), self.popped()) =~= items@);
        }
        self.counter.advance_timer(items.len());
        let total = if pad <= usize::MAX - items.len() { pad + items.len() } else { usize::MAX };
        let out = aligned_prefix(&items, pad, skip, total);
        proof {
            let full = aligned(items@, pad as nat, skip as nat);
            assert(skip > 0 ==> pad == 0);
            assert(full.len() <= pad + items@.len());
            assert(full.len() >= pad);
            assert(received_as(items@, current, sample_idx, out@));
        }
        out
    }
}

impl<W: Waker> Receiver<W> {
    /// Like `recv`, for a reader that takes at most `max_out` samples: only
    /// the samples needed for those are read from the ring buffer (the
    /// dropped ones included), and the counter advances by their number.
    pub fn recv_up_to(&mut self, sample_idx: u64, max_out: usize) -> (r: Vec<u32>)
        requires
            old(self).chunk_size() > 0,
            spec_drift(old(self).counter_value(), sample_idx) is Ok,
        ensures
            r@.len() <= max_out,
            final(self).popped() == old(self).popped() + grown_by(old(self).popped(), final(self).popped()),
            final(self).counter_value() - final(self).popped().len()
                == old(self).counter_value() - old(self).popped().len(),
            ({
                let items = grown_by(old(self).popped(), final(self).popped());
                &&& received_as_up_to(items, old(self).counter_value(), sample_idx, max_out, r@)
                &&& final(self).counter_value() == old(self).counter_value() + items.len()
                &&& woken_once_if(old(self).waker_spec(), final(self).waker_spec(),
                    reaches_chunk_end(old(self).counter_value(), items.len() as usize, old(self).chunk_size()))
            }),
            final(self).chunk_size() == old(self).chunk_size(),
    {
        let current = self.counter.get_value();
        let (pad, skip): (usize, usize) = match self.counter.drift(sample_idx) {
            Ok(Some(d)) => if d.is_negative() { (d.abs(), 0) } else { (0, d.abs()) },
            _ => (0, 0),
        };
        let padded = if pad < max_out { pad } else { max_out };
        let wanted = if skip <= usize::MAX - (max_out - padded) { skip + (max_out - padded) } else { usize::MAX };
        let available = consumer_slots(&self.rx);
        let want = if available < wanted { available } else { wanted };
        let n = room_left(current, want);
        let items = match consumer_read_chunk(&mut self.rx, n) {
            Some(v) => v,
            None => Vec::new(),
        };
        proof {
            assert(grown_by(old(self).popped(), self.popped()) =~= items@);
        }
        self.counter.advance_timer(items.len());
        let out = aligned_prefix(&items, pad, skip, max_out);
        proof {
            assert(received_as_up_to(items@, current, sample_idx, max_out, out@));
        }
        out
    }
}

} // verus!
