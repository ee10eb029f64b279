use syfala::queue::{
    shift_iter, Counter, GenericCounter, IndexedRx, IndexedTx, MultichannelRx, MultichannelTx, PeriodicCounter, Waker,
};

#[derive(Default)]
struct Recorder {
    wakes: Vec<usize>,
}

impl Waker for Recorder {
    fn wake(&mut self, times: usize) {
        self.wakes.push(times);
    }
}

impl Waker for &mut Recorder {
    fn wake(&mut self, times: usize) {
        self.wakes.push(times);
    }
}

#[test]
fn generic_counter_advances_by_delta() {
    let mut c = GenericCounter::new();
    assert_eq!(c.current(), 0);
    c.advance(5);
    c.advance(0);
    c.advance(7);
    assert_eq!(c.current(), 12);
}

#[test]
fn periodic_counter_wakes_per_boundary() {
    let mut rec = Recorder::default();
    {
        let mut p = PeriodicCounter::new(4, GenericCounter::new(), &mut rec);
        assert_eq!(p.period(), 4);
        p.advance(3);
        assert_eq!(p.boundaries_crossed(), 0);
        p.advance(1);
        assert_eq!(p.boundaries_crossed(), 1);
        p.advance(9);
        assert_eq!(p.current(), 13);
        assert_eq!(p.boundaries_crossed(), 3);
        p.advance(2);
    }
    assert_eq!(rec.wakes, vec![1, 2]);
}

#[test]
fn shift_iter_pads_or_skips() {
    assert_eq!(shift_iter(vec![1, 2, 3], 0, || 0), vec![1, 2, 3]);
    assert_eq!(shift_iter(vec![1, 2, 3], 2, || 0), vec![3]);
    assert_eq!(shift_iter(vec![1, 2, 3], 5, || 0), Vec::<i32>::new());
    assert_eq!(shift_iter(vec![1, 2, 3], -2, || 9), vec![9, 9, 1, 2, 3]);
    assert_eq!(shift_iter(Vec::<u8>::new(), -1, || 4), vec![4]);
}

#[test]
fn indexed_tx_aligns_to_counter() {
    let (tx, mut rx) = rtrb::RingBuffer::<u32>::new(16);
    let mut itx = IndexedTx::new(tx, GenericCounter::new());
    itx.send(0, vec![1, 2, 3], || 0);
    assert_eq!(itx.current(), 3);
    // a gap of two: padded
    itx.send(5, vec![6, 7], || 0);
    assert_eq!(itx.current(), 7);
    // behind the counter: the first element is skipped
    itx.send(6, vec![70, 8], || 0);
    assert_eq!(itx.current(), 8);
    let mut got = vec![];
    while let Ok(v) = rx.pop() {
        got.push(v);
    }
    assert_eq!(got, vec![1, 2, 3, 0, 0, 6, 7, 8]);
    assert!(!itx.is_abandoned());
    assert_eq!(itx.available_slots(), 16);
}

#[test]
fn indexed_tx_drops_what_does_not_fit() {
    let (tx, _rx) = rtrb::RingBuffer::<u32>::new(4);
    let mut itx = IndexedTx::new(tx, GenericCounter::new());
    itx.send(0, vec![1, 2, 3, 4, 5, 6], || 0);
    assert_eq!(itx.current(), 4);
    assert_eq!(itx.available_slots(), 0);
}

#[test]
fn indexed_rx_aligns_to_counter() {
    let (mut tx, rx) = rtrb::RingBuffer::<u32>::new(16);
    let mut irx = IndexedRx::new(rx, GenericCounter::new());
    for v in [10, 11, 12, 13] {
        tx.push(v).unwrap();
    }
    assert_eq!(irx.available_slots(), 4);
    // ask for index 1: the first value is skipped
    assert_eq!(irx.recv(1, || 0), vec![11, 12, 13]);
    assert_eq!(irx.current(), 4);
    tx.push(14).unwrap();
    // ask for index 2 while the next value has index 4: padded
    assert_eq!(irx.recv(2, || 99), vec![99, 99, 14]);
    assert_eq!(irx.current(), 5);
    drop(tx);
    assert!(irx.is_abandoned());
}

#[test]
fn multichannel_endpoints() {
    let (tx, rx) = rtrb::RingBuffer::<u8>::new(8);
    let mut mtx = MultichannelTx::new(tx, 2);
    let mut mrx = MultichannelRx::new(rx, 2);
    assert_eq!(mtx.n_channels(), 2);
    assert_eq!(mrx.n_channels(), 2);
    mtx.tx_mut().push(5).unwrap();
    assert_eq!(mtx.tx().slots(), 7);
    assert_eq!(mrx.rx().slots(), 1);
    assert_eq!(mrx.tx_mut().pop().unwrap(), 5);
}

#[test]
fn periodic_counter_wakes_once_per_advance() {
    let mut rec = Recorder::default();
    {
        let mut p = PeriodicCounter::new(4, GenericCounter::new(), &mut rec);
        p.advance(3);
        p.advance(6);
        assert_eq!(p.current(), 9);
        assert_eq!(p.boundaries_crossed(), 2);
    }
    // advance(3) crossed nothing; advance(6) crossed 4 and 8: one wake with 2
    assert_eq!(rec.wakes, vec![2]);
}

#[test]
fn periodic_counter_with_no_waker() {
    let mut p = PeriodicCounter::new(2, GenericCounter::new(), ());
    p.advance(5);
    assert_eq!(p.boundaries_crossed(), 2);
}

#[test]
fn shift_iter_calls_pad_fn_for_each_pad() {
    let calls = std::cell::Cell::new(0);
    let r = shift_iter(vec![1, 2], -3, || {
        calls.set(calls.get() + 1);
        calls.get() * 10
    });
    assert_eq!(r, vec![10, 20, 30, 1, 2]);
    assert_eq!(calls.get(), 3);
}

#[test]
fn indexed_rx_pads_before_what_was_pushed() {
    let (mut p, c) = rtrb::RingBuffer::<i32>::new(4);
    p.push(10).unwrap();
    p.push(20).unwrap();
    let mut g = GenericCounter::new();
    g.advance(2);
    let mut rx = IndexedRx::new(c, g);
    assert_eq!(rx.recv(0, || 0), vec![0, 0, 10, 20]);
    assert_eq!(rx.current(), 4);
    assert_eq!(rx.available_slots(), 0);
}

#[test]
fn indexed_tx_pads_and_truncates() {
    let (p, mut c) = rtrb::RingBuffer::<i32>::new(4);
    let mut tx = IndexedTx::new(p, GenericCounter::new());
    tx.send(2, vec![1, 2, 3], || 0);
    assert_eq!(tx.current(), 4);
    assert_eq!(c.pop(), Ok(0));
    assert_eq!(c.pop(), Ok(0));
    assert_eq!(c.pop(), Ok(1));
    assert_eq!(c.pop(), Ok(2));
    assert!(c.pop().is_err());
}

#[test]
fn value_keeps_its_index_through_the_ring() {
    let (p, c) = rtrb::RingBuffer::<u32>::new(16);
    let mut tx = IndexedTx::new(p, GenericCounter::new());
    let mut rx = IndexedRx::new(c, GenericCounter::new());
    // values for indices 3, 4, 5; indices 0..3 are padded
    tx.send(3, vec![30, 40, 50], || 7);
    // ask for index 4 onwards
    assert_eq!(rx.recv(4, || 9), vec![40, 50]);
}
