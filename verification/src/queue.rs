//! Counters, periodic wake-ups and ring-buffer adapters that align streams to
//! a logical timeline (padding missing elements, skipping excess ones).

use vstd::prelude::*;
use crate::ring::{RingRx, RingTx, consumer_is_abandoned, consumer_read_chunk, consumer_slots, producer_is_abandoned, producer_slots, producer_write_chunk};

verus! {

/// A monotonically increasing logical counter.
///
/// Its value stays unchanged until the next `advance(delta)`, which increases
/// it by exactly `delta`.
pub trait Counter {
    /// The current value.
    spec fn value(&self) -> u64;

    /// Advances the counter by `delta` steps.
    fn advance(&mut self, delta: usize)
        requires
            old(self).value() + delta <= u64::MAX,
        ensures
            final(self).value() == old(self).value() + delta,
    ;

    /// Returns the current absolute position of the counter.
    fn current(&self) -> (r: u64)
        ensures
            r == self.value(),
    ;
}

/// A simple, standalone counter.
#[derive(Clone, Copy, Debug, PartialEq, Eq, Structural)]
pub struct GenericCounter(pub u64);

impl GenericCounter {
    /// A counter at zero.
    pub fn new() -> (r: GenericCounter)
        ensures
            r.0 == 0,
    {
        GenericCounter(0)
    }
}

impl Counter for GenericCounter {
    open spec fn value(&self) -> u64 {
        self.0
    }

    fn advance(&mut self, delta: usize) {
        self.0 = self.0 + delta as u64;
    }

    fn current(&self) -> (r: u64) {
        self.0
    }
}

/// Something that can wake another execution context, like a counting semaphore:
/// each wake-up stands for one unit of newly available work.
pub trait Waker {
    /// Whether a waker in the state `self`, once told of `times` wake events,
    /// can be in the state `after`. What a waker does when woken is its own
    /// affair: one whose code Verus does not read says nothing of it.
    open spec fn woken_to(&self, after: &Self, times: usize) -> bool {
        true
    }

    /// Notifies another execution context that `times` wake events occurred.
    fn wake(&mut self, times: usize)
        requires
            times > 0,
        ensures
            old(self).woken_to(final(self), times),
    ;
}

/// The waker that does nothing.
impl Waker for () {
    fn wake(&mut self, times: usize) {
    }
}

/// The number of multiples of `period` crossed when a counter goes from
/// `before` to `after`.
pub open spec fn boundaries_between(before: u64, after: u64, period: usize) -> int {
    after as int / period as int - before as int / period as int
}

/// The number of period boundaries crossed by advancing a counter at `before`
/// by `delta`: `None` when there is none, so that no wake-up is due.
pub fn crossed_boundaries(before: u64, delta: usize, period: usize) -> (r: Option<usize>)
    requires
        period > 0,
        before + delta <= u64::MAX,
    ensures
        r matches Some(n) ==> n > 0 && n == boundaries_between(before, (before + delta) as u64, period),
        r is None ==> boundaries_between(before, (before + delta) as u64, period) == 0,
{
    let after = before + delta as u64;
    let p = period as u64;
    let b0 = before / p;
    let b1 = after / p;
    proof {
        assert(b0 <= b1) by (nonlinear_arith)
            requires
                b0 == before / p,
                b1 == after / p,
                before <= after,
                p > 0,
        ;
        assert(b1 <= b0 + delta) by (nonlinear_arith)
            requires
                b0 == before / p,
                b1 == after / p,
                after == before + delta,
                p >= 1,
        ;
    }
    let crossed = b1 - b0;
    if crossed == 0 {
        None
    } else {
        Some(crossed as usize)
    }
}

/// A counter adapter that notifies a waker whenever one or more multiples of a
/// fixed `period` are crossed.
#[derive(Clone, Copy)]
pub struct PeriodicCounter<C, W> {
    counter: C,
    waker: W,
    period: usize,
}

impl<C, W> PeriodicCounter<C, W> {
    pub closed spec fn spec_period(&self) -> usize {
        self.period
    }

    pub closed spec fn inner(&self) -> C {
        self.counter
    }

    /// The waker that is told of crossed boundaries.
    pub closed spec fn waker_spec(&self) -> W {
        self.waker
    }

    /// The period is never zero.
    pub open spec fn wf(&self) -> bool {
        self.spec_period() > 0
    }

    /// A periodic counter over `counter` with chunks of `period` steps.
    pub fn new(period: usize, counter: C, waker: W) -> (r: Self)
        requires
            period > 0,
        ensures
            r.spec_period() == period,
            r.inner() == counter,
            r.wf(),
            r.waker_spec() == waker,
    {
        PeriodicCounter { period, waker, counter }
    }

    /// Returns the configured period (chunk size).
    pub fn period(&self) -> (r: usize)
        ensures
            r == self.spec_period(),
    {
        self.period
    }
}

impl<C: Counter, W> PeriodicCounter<C, W> {
    /// The total number of period boundaries crossed so far:
    /// `current() / period`.
    pub fn boundaries_crossed(&self) -> (r: u64)
        requires
            self.wf(),
        ensures
            r == self.inner().value() / (self.spec_period() as u64),
    {
        self.counter.current() / (self.period as u64)
    }
}

impl<C: Counter, W: Waker> Counter for PeriodicCounter<C, W> {
    open spec fn value(&self) -> u64 {
        self.inner().value()
    }

    /// Advances the inner counter by `n` steps; when that crosses new period
    /// boundaries, the waker is told how many.
    fn advance(&mut self, n: usize)
        ensures
            final(self).spec_period() == old(self).spec_period(),
            old(self).wf() ==> if boundaries_between(old(self).value(), final(self).value(), old(self).spec_period()) > 0 {
                old(self).waker_spec().woken_to(&final(self).waker_spec(),
                    boundaries_between(old(self).value(), final(self).value(), old(self).spec_period()) as usize)
            } else {
                final(self).waker_spec() == old(self).waker_spec()
            },
    {
        let before = self.counter.current();
        self.counter.advance(n);
        if self.period > 0 {
            match crossed_boundaries(before, n, self.period) {
                Some(k) => {
                    self.waker.wake(k);
                },
                None => {},
            }
        }
    }

    fn current(&self) -> (r: u64) {
        self.counter.current()
    }
}

/// `items` shifted by `deviation`: a positive deviation drops that many
/// elements from the front (all of them if there are fewer); a negative one
/// prefixes that many copies of `pad`.
pub open spec fn shift_seq<T>(items: Seq<T>, deviation: int, pad: T) -> Seq<T> {
    if deviation < 0 {
        Seq::new((-deviation) as nat, |i: int| pad) + items
    } else if deviation >= items.len() {
        Seq::empty()
    } else {
        items.subrange(deviation, items.len() as int)
    }
}

/// The length of a shifted sequence and what stands at each of its
/// positions: a pad within the padding, else the item `deviation` further on.
pub proof fn lemma_shift_seq_index<T>(items: Seq<T>, deviation: int, pad: T, j: int)
    requires
        0 <= j < shift_seq(items, deviation, pad).len(),
    ensures
        shift_seq(items, deviation, pad).len() == items.len() - deviation,
        j < -deviation ==> shift_seq(items, deviation, pad)[j] == pad,
        j >= -deviation ==> 0 <= j + deviation < items.len()
            && shift_seq(items, deviation, pad)[j] == items[j + deviation],
{
}

/// How many pads a shift by `deviation` puts in front: `-deviation` when it
/// is negative, else none.
pub open spec fn pad_count(deviation: int) -> nat {
    if deviation < 0 { (-deviation) as nat } else { 0 }
}

/// What a shift by `deviation` keeps of `items`: all of them when it is not
/// positive, else what follows the first `deviation` (nothing if there are
/// fewer).
pub open spec fn kept_items<T>(items: Seq<T>, deviation: int) -> Seq<T> {
    if deviation <= 0 {
        items
    } else if deviation >= items.len() {
        Seq::empty()
    } else {
        items.subrange(deviation, items.len() as int)
    }
}

/// `out` is a start of `items` shifted by `deviation`: within the first
/// `pad_count(deviation)` positions each element is a value that `pad_fn`
/// can return, and after them come the kept items, in order.
pub open spec fn is_shift_prefix<T, F: Fn() -> T>(items: Seq<T>, deviation: int, pad_fn: F, out: Seq<T>) -> bool {
    &&& out.len() <= pad_count(deviation) + kept_items(items, deviation).len()
    &&& forall|i: int| 0 <= i < out.len() && i < pad_count(deviation) ==> pad_fn.ensures((), #[trigger] out[i])
    &&& forall|i: int| pad_count(deviation) <= i < out.len()
            ==> #[trigger] out[i] == kept_items(items, deviation)[i - pad_count(deviation)]
}

/// `out` is the whole of `items` shifted by `deviation`, with pads from
/// `pad_fn`.
pub open spec fn is_shift<T, F: Fn() -> T>(items: Seq<T>, deviation: int, pad_fn: F, out: Seq<T>) -> bool {
    &&& is_shift_prefix(items, deviation, pad_fn, out)
    &&& out.len() == pad_count(deviation) + kept_items(items, deviation).len()
}

/// A value keeps its logical index through a ring buffer: the value that
/// `IndexedTx::send` writes for index `i` is the one that `IndexedRx::recv`
/// gives back for index `i`.
///
/// Both ends count from `base`, the index of the ring buffer's first item,
/// and `stream` is every item the ring buffer carried, in order, so that
/// what was written and what was read are both prefixes of it. The send,
/// with its counter at `tx_counter`, wrote `sent` (a start of `values`, whose
/// first has index `idx_tx`, shifted to the counter) after `pushed`; the
/// receive, with its counter at `rx_counter`, read `read` after `popped` and
/// gave `got`, shifted to the index `idx_rx` asked for.
pub proof fn law_value_keeps_its_index<T, F1: Fn() -> T, F2: Fn() -> T>(
    stream: Seq<T>,
    base: int,
    pushed: Seq<T>,
    tx_counter: int,
    values: Seq<T>,
    idx_tx: int,
    pad_tx: F1,
    sent: Seq<T>,
    popped: Seq<T>,
    rx_counter: int,
    read: Seq<T>,
    idx_rx: int,
    pad_rx: F2,
    got: Seq<T>,
    i: int,
)
    requires
        pushed.len() == tx_counter - base,
        is_shift_prefix(values, tx_counter - idx_tx, pad_tx, sent),
        (pushed + sent).is_prefix_of(stream),
        popped.len() == rx_counter - base,
        (popped + read).is_prefix_of(stream),
        is_shift(read, idx_rx - rx_counter, pad_rx, got),
        tx_counter <= i < tx_counter + sent.len(),
        idx_tx <= i,
        rx_counter <= i < rx_counter + read.len(),
        idx_rx <= i,
    ensures
        i - idx_tx < values.len(),
        i - idx_rx < got.len(),
        got[i - idx_rx] == values[i - idx_tx],
{
    let d_tx = tx_counter - idx_tx;
    let d_rx = idx_rx - rx_counter;
    let k = i - tx_counter;
    assert(k >= pad_count(d_tx));
    assert(sent[k] == kept_items(values, d_tx)[k - pad_count(d_tx)]);
    let j = i - idx_rx;
    assert(j >= pad_count(d_rx));
    assert(got[j] == kept_items(read, d_rx)[j - pad_count(d_rx)]);
    let w = pushed + sent;
    let q = popped + read;
    assert(w[i - base] == sent[k]);
    assert(q[i - base] == read[i - rx_counter]);
    assert(stream[i - base] == w[i - base]);
    assert(stream[i - base] == q[i - base]);
}

/// The number of pads and of skipped items of a shift by `deviation`.
fn pad_and_skip_counts(deviation: isize) -> (r: (usize, usize))
    ensures
        r.0 == pad_count(deviation as int),
        r.1 == if deviation > 0 { deviation as int } else { 0 },
{
    if deviation < 0 {
        (if deviation == isize::MIN { (isize::MAX as usize) + 1 } else { (-deviation) as usize }, 0)
    } else {
        (0, deviation as usize)
    }
}

/// Shifts a sequence forward or backward by a signed deviation: with
/// `n = |deviation|`, a positive deviation skips the first `n` elements, a
/// negative one puts `n` values of `pad_fn` in front, one call each, and zero
/// leaves it unchanged.
pub fn shift_iter<T: Copy, F: Fn() -> T>(items: Vec<T>, deviation: isize, pad_fn: F) -> (r: Vec<T>)
    requires
        pad_fn.requires(()),
    ensures
        is_shift(items@, deviation as int, pad_fn, r@),
{
    let ghost kept = kept_items(items@, deviation as int);
    let mut out: Vec<T> = Vec::new();
    let (padding, skipping) = pad_and_skip_counts(deviation);
    let mut i: usize = 0;
    while i < padding
        invariant
            i <= padding,
            padding == pad_count(deviation as int),
            pad_fn.requires(()),
            out@.len() == i,
            forall|k: int| 0 <= k < i ==> pad_fn.ensures((), #[trigger] out@[k]),
        decreases padding - i,
    {
        let v = pad_fn();
        out.push(v);
        i = i + 1;
    }
    let mut j: usize = skipping;
    while j < items.len()
        invariant
            padding == pad_count(deviation as int),
            skipping == (if deviation > 0 { deviation as int } else { 0 }),
            kept == kept_items(items@, deviation as int),
            skipping <= j,
            skipping < items@.len() ==> j <= items@.len(),
            skipping < items@.len() ==> out@.len() == padding + (j - skipping),
            skipping >= items@.len() ==> out@.len() == padding,
            forall|k: int| 0 <= k < padding ==> pad_fn.ensures((), #[trigger] out@[k]),
            forall|k: int| padding <= k < out@.len() ==> #[trigger] out@[k] == items@[k - padding + skipping],
        decreases items@.len() - j,
    {
        out.push(items[j]);
        j = j + 1;
    }
    proof {
        if skipping < items@.len() {
            assert(kept.len() == items@.len() - skipping);
            assert forall|k: int| padding <= k < out@.len() implies #[trigger] out@[k] == kept[k - padding] by {
                assert(kept[k - padding] == items@[k - padding + skipping]);
            }
        } else {
            assert(kept.len() == 0);
        }
    }
    out
}

/// The first `limit` elements of `items` shifted by `deviation` (all of them
/// when there are fewer), built without making the rest: `pad_fn` is called
/// once for each pad that is made.
pub fn shift_prefix<T: Copy, F: Fn() -> T>(items: &Vec<T>, deviation: isize, pad_fn: F, limit: usize) -> (r: Vec<T>)
    requires
        pad_fn.requires(()),
    ensures
        is_shift_prefix(items@, deviation as int, pad_fn, r@),
        r@.len() == if limit < pad_count(deviation as int) + kept_items(items@, deviation as int).len() { limit as int }
            else { pad_count(deviation as int) + kept_items(items@, deviation as int).len() as int },
{
    let ghost kept = kept_items(items@, deviation as int);
    let mut out: Vec<T> = Vec::new();
    let (padding, skipping) = pad_and_skip_counts(deviation);
    let n_pad = if padding < limit { padding } else { limit };
    let mut i: usize = 0;
    while i < n_pad
        invariant
            i <= n_pad,
            n_pad <= padding,
            padding == pad_count(deviation as int),
            pad_fn.requires(()),
            out@.len() == i,
            forall|k: int| 0 <= k < i ==> pad_fn.ensures((), #[trigger] out@[k]),
        decreases n_pad - i,
    {
        let v = pad_fn();
        out.push(v);
        i = i + 1;
    }
    if n_pad == padding && skipping < items.len() {
        let mut j: usize = skipping;
        while j < items.len() && out.len() < limit
            invariant
                skipping <= j <= items@.len(),
                padding <= limit,
                padding == pad_count(deviation as int),
                skipping == (if deviation > 0 { deviation as int } else { 0 }),
                kept == kept_items(items@, deviation as int),
                out@.len() == padding + (j - skipping),
                out@.len() <= limit,
                forall|k: int| 0 <= k < padding ==> pad_fn.ensures((), #[trigger] out@[k]),
                forall|k: int| padding <= k < out@.len() ==> #[trigger] out@[k] == items@[k - padding + skipping],
            decreases items@.len() - j,
        {
            out.push(items[j]);
            j = j + 1;
        }
        proof {
            assert(kept.len() == items@.len() - skipping);
            assert forall|k: int| padding <= k < out@.len() implies #[trigger] out@[k] == kept[k - padding] by {
                assert(kept[k - padding] == items@[k - padding + skipping]);
            }
        }
    } else {
        proof {
            assert(n_pad < padding ==> n_pad == limit);
            assert(n_pad == padding ==> kept.len() == 0);
        }
    }
    out
}

/// The signed distance `a - b`, when it fits in an `isize`.
pub fn signed_distance(a: u64, b: u64) -> (r: Option<isize>)
    ensures
        r is Some <==> isize::MIN <= a - b <= isize::MAX,
        r matches Some(d) ==> d == a - b,
{
    if a >= b {
        let d = a - b;
        if d <= isize::MAX as u64 {
            Some(d as isize)
        } else {
            None
        }
    } else {
        let d = b - a;
        if d <= isize::MAX as u64 {
            Some(-(d as isize))
        } else if d == (isize::MAX as u64) + 1 {
            Some(isize::MIN)
        } else {
            None
        }
    }
}

/// How many more steps a counter at `current` can take.
fn room_left(current: u64, want: usize) -> (r: usize)
    ensures
        r <= want,
        current + r <= u64::MAX,
        r == want || current + want > u64::MAX,
{
    let room = u64::MAX - current;
    if (want as u64) <= room {
        want
    } else {
        room as usize
    }
}

/// A receive-side ring-buffer adapter that aligns the values it pulls to the
/// logical index counted by its counter: the counter stands for the index of
/// the next value expected from the ring buffer.
#[verifier::reject_recursive_types(Elem)]
pub struct IndexedRx<C, Elem> {
    rx: RingRx<Elem>,
    counter: C,
}

impl<C, Elem> IndexedRx<C, Elem> {
    pub closed spec fn counter_spec(&self) -> C {
        self.counter
    }

    /// The values taken from the ring buffer so far, oldest first.
    pub closed spec fn popped(&self) -> Seq<Elem> {
        self.rx.popped()
    }

    /// An adapter over `rx`, whose next value has the index `counter.current()`
    /// (ideally zero).
    pub fn new(rx: rtrb::Consumer<Elem>, counter: C) -> (r: Self)
        ensures
            r.counter_spec() == counter,
            r.popped() == Seq::<Elem>::empty(),
    {
        IndexedRx { rx: RingRx::new(rx), counter }
    }
}

/// What `after` holds beyond its first `before.len()` items: the items that
/// came after `before`.
pub open spec fn grown_by<T>(before: Seq<T>, after: Seq<T>) -> Seq<T> {
    after.skip(before.len() as int)
}

impl<C: Counter, Elem: Copy> IndexedRx<C, Elem> {
    /// Receives all values currently available and aligns them so that the
    /// first returned value has logical index `idx`: values behind `idx` are
    /// skipped, and a gap up to the first available value is filled with
    /// values of `pad_fn`, one call each.
    ///
    /// The counter advances by the number of values taken from the ring buffer.
    pub fn recv<F: Fn() -> Elem>(&mut self, idx: u64, pad_fn: F) -> (r: Vec<Elem>)
        requires
            isize::MIN <= idx - old(self).counter_spec().value() <= isize::MAX,
            pad_fn.requires(()),
        ensures
            final(self).popped() == old(self).popped() + grown_by(old(self).popped(), final(self).popped()),
            is_shift(grown_by(old(self).popped(), final(self).popped()), idx - old(self).counter_spec().value(), pad_fn, r@),
            final(self).counter_spec().value() == old(self).counter_spec().value()
                + grown_by(old(self).popped(), final(self).popped()).len(),
            final(self).counter_spec().value() - final(self).popped().len()
                == old(self).counter_spec().value() - old(self).popped().len(),
    {
        let current = self.counter.current();
        let deviation = match signed_distance(idx, current) {
            Some(d) => d,
            None => 0,
        };
        let available = consumer_slots(&self.rx);
        let n = room_left(current, available);
        let items = match consumer_read_chunk(&mut self.rx, n) {
            Some(v) => v,
            None => Vec::new(),
        };
        proof {
            assert(grown_by(old(self).popped(), self.popped()) =~= items@);
        }
        self.counter.advance(items.len());
        shift_iter(items, deviation, pad_fn)
    }

    /// Returns the current value of the internal counter.
    pub fn current(&self) -> (r: u64)
        ensures
            r == self.counter_spec().value(),
    {
        self.counter.current()
    }

    /// Returns the number of elements that can be read at the moment of the call.
    pub fn available_slots(&self) -> (r: usize) {
        consumer_slots(&self.rx)
    }

    /// Returns whether the producer side of the ring buffer has been destroyed.
    pub fn is_abandoned(&self) -> (r: bool) {
        consumer_is_abandoned(&self.rx)
    }
}

/// A send-side ring-buffer adapter that aligns the values it writes to the
/// logical index counted by its counter: the counter stands for the index of
/// the next value the ring buffer will receive.
#[verifier::reject_recursive_types(Elem)]
pub struct IndexedTx<C, Elem> {
    counter: C,
    tx: RingTx<Elem>,
}

impl<C, Elem> IndexedTx<C, Elem> {
    pub closed spec fn counter_spec(&self) -> C {
        self.counter
    }

    /// The values written into the ring buffer so far, oldest first.
    pub closed spec fn pushed(&self) -> Seq<Elem> {
        self.tx.pushed()
    }

    /// An adapter over `tx`, whose next value has the index `counter.current()`.
    pub fn new(tx: rtrb::Producer<Elem>, counter: C) -> (r: Self)
        ensures
            r.counter_spec() == counter,
            r.pushed() == Seq::<Elem>::empty(),
    {
        IndexedTx { counter, tx: RingTx::new(tx) }
    }
}

impl<C: Counter, Elem: Copy> IndexedTx<C, Elem> {
    /// Writes `values`, whose first element has logical index `idx`, aligned to
    /// the counter: values already behind the counter are skipped, and a gap
    /// between the counter and `idx` is filled with values of `pad_fn`, one
    /// call each. What does not fit in the ring buffer is silently dropped;
    /// the counter advances by the number of values written.
    pub fn send<F: Fn() -> Elem>(&mut self, idx: u64, values: Vec<Elem>, pad_fn: F)
        requires
            isize::MIN <= old(self).counter_spec().value() - idx <= isize::MAX,
            pad_fn.requires(()),
        ensures
            final(self).pushed() == old(self).pushed() + grown_by(old(self).pushed(), final(self).pushed()),
            is_shift_prefix(values@, old(self).counter_spec().value() - idx, pad_fn,
                grown_by(old(self).pushed(), final(self).pushed())),
            final(self).counter_spec().value() == old(self).counter_spec().value()
                + grown_by(old(self).pushed(), final(self).pushed()).len(),
            final(self).counter_spec().value() - final(self).pushed().len()
                == old(self).counter_spec().value() - old(self).pushed().len(),
    {
        let current = self.counter.current();
        let deviation = match signed_distance(current, idx) {
            Some(d) => d,
            None => 0,
        };
        let free = producer_slots(&self.tx);
        let n = room_left(current, free);
        let out = shift_prefix(&values, deviation, pad_fn, n);
        let ghost sent = out@;
        let written = match producer_write_chunk(&mut self.tx, n, out) {
            Some(k) => k,
            None => 0,
        };
        proof {
            let grown = grown_by(old(self).pushed(), self.pushed());
            assert(grown =~= sent.take(written as int));
            let d = current - idx;
            assert forall|i: int| 0 <= i < grown.len() && i < pad_count(d) implies pad_fn.ensures((), #[trigger] grown[i]) by {
                assert(grown[i] == sent[i]);
            }
            assert forall|i: int| pad_count(d) <= i < grown.len() implies #[trigger] grown[i] == kept_items(values@, d)[i - pad_count(d)] by {
                assert(grown[i] == sent[i]);
            }
        }
        self.counter.advance(written);
    }

    /// Returns the current value of the internal counter.
    pub fn current(&self) -> (r: u64)
        ensures
            r == self.counter_spec().value(),
    {
        self.counter.current()
    }

    /// Returns the number of slots that can be written at the moment of the call.
    pub fn available_slots(&self) -> (r: usize) {
        producer_slots(&self.tx)
    }

    /// Returns whether the consumer side of the ring buffer has been destroyed.
    pub fn is_abandoned(&self) -> (r: bool) {
        producer_is_abandoned(&self.tx)
    }
}

/// The sending end of a ring buffer of raw multichannel audio packets.
pub struct MultichannelTx {
    n_channels: usize,
    tx: rtrb::Producer<u8>,
}

impl MultichannelTx {
    pub closed spec fn spec_n_channels(&self) -> usize {
        self.n_channels
    }

    /// The ring buffer's end that this value holds.
    pub closed spec fn spec_tx(&self) -> rtrb::Producer<u8> {
        self.tx
    }

    /// The sending end `tx` of packets of `n_channels` channels.
    pub fn new(tx: rtrb::Producer<u8>, n_channels: usize) -> (r: MultichannelTx)
        requires
            n_channels > 0,
        ensures
            r.spec_n_channels() == n_channels,
            r.spec_tx() == tx,
    {
        MultichannelTx { n_channels, tx }
    }

    /// The number of channels (positive).
    pub fn n_channels(&self) -> (r: usize)
        ensures
            r == self.spec_n_channels(),
    {
        self.n_channels
    }

    /// The ring buffer's sending end.
    pub fn tx(&self) -> (r: &rtrb::Producer<u8>)
        ensures
            *r == self.spec_tx(),
    {
        &self.tx
    }

    /// The ring buffer's sending end, to write to; the channel count stays.
    pub fn tx_mut(&mut self) -> (r: &mut rtrb::Producer<u8>)
        ensures
            final(self).spec_n_channels() == old(self).spec_n_channels(),
            *r == old(self).spec_tx(),
            final(self).spec_tx() == *final(r),
    {
        &mut self.tx
    }
}

/// The receiving end of a ring buffer of raw multichannel audio packets.
pub struct MultichannelRx {
    n_channels: usize,
    rx: rtrb::Consumer<u8>,
}

impl MultichannelRx {
    pub closed spec fn spec_n_channels(&self) -> usize {
        self.n_channels
    }

    /// The ring buffer's end that this value holds.
    pub closed spec fn spec_rx(&self) -> rtrb::Consumer<u8> {
        self.rx
    }

    /// The receiving end `rx` of packets of `n_channels` channels.
    pub fn new(rx: rtrb::Consumer<u8>, n_channels: usize) -> (r: MultichannelRx)
        requires
            n_channels > 0,
        ensures
            r.spec_n_channels() == n_channels,
            r.spec_rx() == rx,
    {
        MultichannelRx { n_channels, rx }
    }

    /// The number of channels (positive).
    pub fn n_channels(&self) -> (r: usize)
        ensures
            r == self.spec_n_channels(),
    {
        self.n_channels
    }

    /// The ring buffer's receiving end.
    pub fn rx(&self) -> (r: &rtrb::Consumer<u8>)
        ensures
            *r == self.spec_rx(),
    {
        &self.rx
    }

    /// The ring buffer's receiving end, to read from; the channel count stays.
    pub fn tx_mut(&mut self) -> (r: &mut rtrb::Consumer<u8>)
        ensures
            final(self).spec_n_channels() == old(self).spec_n_channels(),
            *r == old(self).spec_rx(),
            final(self).spec_rx() == *final(r),
    {
        &mut self.rx
    }
}

} // verus!
