use syfala::net::{nz, AudioConfig, Counter, Drift, Receiver, Sender, WakingCounter, SAMPLE_SIZE};
use syfala::queue::Waker;

#[derive(Default)]
struct Recorder {
    wakes: usize,
}

impl Waker for &mut Recorder {
    fn wake(&mut self, times: usize) {
        self.wakes += times;
    }
}

#[test]
fn audio_config() {
    let c = AudioConfig::new(2, 256);
    assert_eq!(c.n_channels(), 2);
    assert_eq!(c.chunk_size_frames(), 256);
    assert_eq!(c.chunk_size_samples(), 512);
    assert_eq!(c, AudioConfig::new(2, 256));
    assert_ne!(c, AudioConfig::new(1, 256));
    assert_eq!(nz(3), 3);
    assert_eq!(SAMPLE_SIZE, 4);
}

#[test]
fn counter_chunk_times() {
    let mut c = Counter::new();
    assert_eq!(c.current(), 0);
    assert_eq!(c.chunk_time(4), 0);
    assert_eq!(c.remaining_chunk_time(4), 4);
    c.advance(6);
    assert_eq!(c.chunk_time(4), 2);
    assert_eq!(c.remaining_chunk_time(4), 2);
    c.set_value(8);
    assert_eq!(c.remaining_chunk_time(4), 4);
}

#[test]
fn drift_sign_and_size() {
    let mut c = Counter::new();
    c.set_value(100);
    assert!(c.drift(100).unwrap().is_none());
    let d: Drift = c.drift(90).unwrap().unwrap();
    assert!(d.is_negative());
    assert_eq!(d.abs(), 10);
    let d = Drift::new(&c, 130).unwrap().unwrap();
    assert!(!d.is_negative());
    assert_eq!(d.abs(), 30);
}

#[test]
fn waking_counter_wakes_at_chunk_ends() {
    let mut rec = Recorder::default();
    {
        let mut w = WakingCounter::with_waker(&mut rec, 4);
        assert_eq!(w.chunk_size_samples(), 4);
        w.advance_timer(3);
        w.advance_timer(1);
        w.advance_timer(2);
        w.advance_timer(10);
        assert_eq!(w.get_value(), 16);
    }
    assert_eq!(rec.wakes, 2);
    let w = WakingCounter::new();
    assert_eq!(w.chunk_size_samples(), usize::MAX);
    assert_eq!(w.get_value(), 0);
}

#[test]
fn sender_pads_and_skips() {
    let (tx, mut rx) = rtrb::RingBuffer::<u32>::new(32);
    let mut s = Sender::new(tx);
    assert_eq!(s.send(0, vec![1, 2, 3]), 3);
    assert_eq!(s.get_counter_value(), 3);
    // two samples ahead of the counter: two silent samples first
    assert_eq!(s.send(5, vec![6, 7]), 4);
    // one sample behind: it is dropped
    assert_eq!(s.send(6, vec![60, 8]), 1);
    assert_eq!(s.get_counter_value(), 8);
    let mut got = vec![];
    while let Ok(v) = rx.pop() {
        got.push(v);
    }
    assert_eq!(got, vec![1, 2, 3, 0, 0, 6, 7, 8]);
    assert_eq!(s.capacity_samples(), 32);
    assert_eq!(s.available_samples(), 32);
    assert!(!s.is_abandoned());
    s.set_counter_value(100);
    assert_eq!(s.get_counter_value(), 100);
}

#[test]
fn sender_stops_when_full() {
    let (tx, _rx) = rtrb::RingBuffer::<u32>::new(2);
    let mut s = Sender::new(tx);
    assert_eq!(s.send(0, vec![1, 2, 3]), 2);
    assert_eq!(s.get_counter_value(), 2);
    assert_eq!(s.send(2, vec![3]), 0);
}

#[test]
fn sender_wakes_its_waker() {
    let mut rec = Recorder::default();
    {
        let (tx, _rx) = rtrb::RingBuffer::<u32>::new(32);
        let mut s = Sender::with_waker(tx, &mut rec, 4);
        s.send(0, vec![0; 3]);
        s.send(3, vec![0; 6]);
    }
    assert_eq!(rec.wakes, 1);
}

#[test]
fn receiver_pads_and_skips() {
    let (mut tx, rx) = rtrb::RingBuffer::<u32>::new(32);
    let mut r = Receiver::new(rx);
    for v in [10, 11, 12] {
        tx.push(v).unwrap();
    }
    assert_eq!(r.n_available_samples(), 3);
    // asking for index 1 skips the sample with index 0
    assert_eq!(r.recv(1), vec![11, 12]);
    tx.push(13).unwrap();
    // asking for index 1 again, the next sample has index 3: silence first
    assert_eq!(r.recv(1), vec![0, 0, 13]);
    assert_eq!(r.recv(4), Vec::<u32>::new());
    assert_eq!(r.capacity_samples(), 32);
    drop(tx);
    assert!(r.is_abandoned());
}

#[test]
fn receiver_reads_only_what_is_needed() {
    let (mut tx, rx) = rtrb::RingBuffer::<u32>::new(32);
    let mut r = Receiver::new(rx);
    for v in 0..10 {
        tx.push(v).unwrap();
    }
    // skip two, then take three
    assert_eq!(r.recv_up_to(2, 3), vec![2, 3, 4]);
    assert_eq!(r.get_counter_value(), 5);
    assert_eq!(r.n_available_samples(), 5);
    // two behind the counter: two silent samples, then one real
    assert_eq!(r.recv_up_to(3, 3), vec![0, 0, 5]);
    assert_eq!(r.get_counter_value(), 6);
    assert_eq!(r.recv_up_to(6, 0), Vec::<u32>::new());
    assert_eq!(r.get_counter_value(), 6);
}

#[test]
fn waker_accessors_give_the_waker_back() {
    let (tx, rx) = rtrb::RingBuffer::<u32>::new(4);
    let s = Sender::with_waker(tx, 7u8, 2);
    assert_eq!(*s.waker(), 7);
    assert_eq!(s.capacity_samples(), 4);
    let r = Receiver::with_waker(rx, 9u8, 2);
    assert_eq!(*r.waker(), 9);
    assert_eq!(r.capacity_samples(), 4);
    let c = WakingCounter::with_waker(3u8, 2);
    assert_eq!(*c.waker(), 3);
}

#[test]
fn sample_keeps_its_index_through_the_ring() {
    let (tx, rx) = rtrb::RingBuffer::<u32>::new(16);
    let mut s = Sender::new(tx);
    let mut r = Receiver::new(rx);
    // samples for indices 3, 4, 5: three silent samples come first
    assert_eq!(s.send(3, vec![30, 40, 50]), 6);
    // index 4 onwards
    assert_eq!(r.recv(4), vec![40, 50]);
    assert_eq!(r.get_counter_value(), 6);
}
