//! The ring buffer endpoints of the `rtrb` crate, as the verified code sees them.
//!
//! A ring buffer is shared between two threads: how much room or how many
//! items the other side leaves is unknown here. What one endpoint itself has
//! written, or read, is known: each endpoint is held together with the
//! sequence of the items that went through it, in order.

use vstd::prelude::*;

verus! {

#[verifier::external_type_specification]
#[verifier::external_body]
#[verifier::reject_recursive_types(T)]
pub struct ExProducer<T>(rtrb::Producer<T>);

#[verifier::external_type_specification]
#[verifier::external_body]
#[verifier::reject_recursive_types(T)]
pub struct ExConsumer<T>(rtrb::Consumer<T>);

/// The sending end of a ring buffer, with every item written through it since
/// it was taken in, in the order written.
#[verifier::reject_recursive_types(T)]
pub struct RingTx<T> {
    tx: rtrb::Producer<T>,
    pushed: Ghost<Seq<T>>,
}

impl<T> RingTx<T> {
    /// The items written through this end, oldest first.
    pub closed spec fn pushed(&self) -> Seq<T> {
        self.pushed@
    }

    /// The `rtrb` producer.
    pub closed spec fn raw(&self) -> rtrb::Producer<T> {
        self.tx
    }

    /// Takes in `tx`; nothing has been written through it yet.
    pub fn new(tx: rtrb::Producer<T>) -> (r: RingTx<T>)
        ensures
            r.pushed() == Seq::<T>::empty(),
            r.raw() == tx,
    {
        RingTx { tx, pushed: Ghost(Seq::empty()) }
    }
}

/// The receiving end of a ring buffer, with every item read through it since
/// it was taken in, in the order read.
#[verifier::reject_recursive_types(T)]
pub struct RingRx<T> {
    rx: rtrb::Consumer<T>,
    popped: Ghost<Seq<T>>,
}

impl<T> RingRx<T> {
    /// The items read through this end, oldest first.
    pub closed spec fn popped(&self) -> Seq<T> {
        self.popped@
    }

    /// The `rtrb` consumer.
    pub closed spec fn raw(&self) -> rtrb::Consumer<T> {
        self.rx
    }

    /// Takes in `rx`; nothing has been read through it yet.
    pub fn new(rx: rtrb::Consumer<T>) -> (r: RingRx<T>)
        ensures
            r.popped() == Seq::<T>::empty(),
            r.raw() == rx,
    {
        RingRx { rx, popped: Ghost(Seq::empty()) }
    }
}

/// `rtrb::Producer::slots`: the number of slots free for writing at the time of
/// the call. The consumer thread may free more at any time, so nothing is
/// promised of the number.
#[verifier::external_body]
pub fn producer_slots<T>(tx: &RingTx<T>) -> (r: usize) {
    tx.tx.slots()
}

/// `rtrb::Consumer::slots`: the number of items available for reading at the
/// time of the call. The producer thread may add more at any time, so nothing
/// is promised of the number.
#[verifier::external_body]
pub fn consumer_slots<T>(rx: &RingRx<T>) -> (r: usize) {
    rx.rx.slots()
}

/// `rtrb::Producer::write_chunk_uninit(n)` followed by
/// `WriteChunkUninit::fill_from_iter(items)`. When `n` slots are free, the chunk
/// is acquired and filled from the front of `items` until either is exhausted,
/// and the items filled in are committed, in order, after everything written
/// before: the result is `Some(min(n, items.len()))`. Otherwise nothing is
/// written and the result is `None`. Which of the two happens depends on the
/// consumer thread.
#[verifier::external_body]
pub fn producer_write_chunk<T>(tx: &mut RingTx<T>, n: usize, items: Vec<T>) -> (r: Option<usize>)
    ensures
        match r {
            Some(k) => {
                &&& k == if n < items@.len() { n as int } else { items@.len() as int }
                &&& final(tx).pushed() == old(tx).pushed() + items@.take(k as int)
            },
            None => final(tx).pushed() == old(tx).pushed(),
        },
{
    match tx.tx.write_chunk_uninit(n) {
        Ok(chunk) => Some(chunk.fill_from_iter(items)),
        Err(_) => None,
    }
}

/// `rtrb::Consumer::read_chunk(n)`, with all `n` items moved out of the chunk
/// in order: they are the next `n` items of the ring buffer, and reading them
/// takes them out. When fewer than `n` items are available the result is
/// `None` and nothing is read. What the items hold comes from the producer
/// thread.
#[verifier::external_body]
pub fn consumer_read_chunk<T>(rx: &mut RingRx<T>, n: usize) -> (r: Option<Vec<T>>)
    ensures
        match r {
            Some(v) => v@.len() == n && final(rx).popped() == old(rx).popped() + v@,
            None => final(rx).popped() == old(rx).popped(),
        },
{
    match rx.rx.read_chunk(n) {
        Ok(chunk) => Some(chunk.into_iter().collect()),
        Err(_) => None,
    }
}

/// `rtrb::Producer::is_abandoned`: whether the consumer has been dropped.
#[verifier::external_body]
pub fn producer_is_abandoned<T>(tx: &RingTx<T>) -> (r: bool) {
    tx.tx.is_abandoned()
}

/// `rtrb::Consumer::is_abandoned`: whether the producer has been dropped.
#[verifier::external_body]
pub fn consumer_is_abandoned<T>(rx: &RingRx<T>) -> (r: bool) {
    rx.rx.is_abandoned()
}

/// The capacity of the ring buffer whose sending end is `tx`, fixed when the
/// buffer was made.
pub uninterp spec fn producer_ring_capacity(tx: rtrb::Producer<u32>) -> usize;

/// The capacity of the ring buffer whose receiving end is `rx`, fixed when the
/// buffer was made.
pub uninterp spec fn consumer_ring_capacity(rx: rtrb::Consumer<u32>) -> usize;

/// `rtrb::RingBuffer::capacity` of a producer's buffer: the number that the
/// buffer was made with, which nothing changes afterwards.
#[verifier::external_body]
pub fn producer_capacity(tx: &RingTx<u32>) -> (r: usize)
    ensures
        r == producer_ring_capacity(tx.raw()),
{
    tx.tx.buffer().capacity()
}

/// `rtrb::RingBuffer::capacity` of a consumer's buffer: the number that the
/// buffer was made with, which nothing changes afterwards.
#[verifier::external_body]
pub fn consumer_capacity(rx: &RingRx<u32>) -> (r: usize)
    ensures
        r == consumer_ring_capacity(rx.raw()),
{
    rx.rx.buffer().capacity()
}

} // verus!
