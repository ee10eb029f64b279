use syfala::process::{
    deinterleave, frames_in, ring_samples, interleave, samples_of_frames, timer_timestamp, write_after_delay, CycleClock, DelayLine,
    Interleaved,
};

#[test]
fn interleaved_positions() {
    let mut it = Interleaved::new(2, 3);
    assert_eq!(it.len(), 6);
    let mut got = vec![];
    while let Some(p) = it.next() {
        got.push(p);
    }
    assert_eq!(got, vec![(0, 0), (1, 0), (0, 1), (1, 1), (0, 2), (1, 2)]);
    assert_eq!(it.len(), 0);
    assert_eq!(it.next(), None);
}

#[test]
fn len_counts_what_is_left() {
    let mut it = Interleaved::new(3, 2);
    it.next();
    assert_eq!(it.len(), 5);
}

#[test]
fn interleave_and_back() {
    let channels = vec![vec![1, 2, 3, 99], vec![10, 20, 30]];
    let flat = interleave(&channels, 3);
    assert_eq!(flat, vec![1, 10, 2, 20, 3, 30]);
    assert_eq!(deinterleave(&flat, 2), vec![vec![1, 2, 3], vec![10, 20, 30]]);
    assert_eq!(deinterleave(&vec![1, 2, 3, 4, 5], 2), vec![vec![1, 3], vec![2, 4]]);
}

#[test]
fn delay_is_consumed_across_cycles() {
    let mut d = DelayLine::new(10);
    assert_eq!(d.take(4), 4);
    assert_eq!(d.take(4), 4);
    assert_eq!(d.take(4), 2);
    assert_eq!(d.take(4), 0);
}

#[test]
fn samples_after_the_delay() {
    let mut out = vec![0u32; 6];
    write_after_delay(&mut out, 2, &vec![7, 8, 9, 10, 11, 12]);
    assert_eq!(out, vec![0, 0, 7, 8, 9, 10]);
    let mut out = vec![5u32; 4];
    write_after_delay(&mut out, 1, &vec![1]);
    assert_eq!(out, vec![5, 1, 5, 5]);
}

#[test]
fn cycle_timestamps() {
    let mut clock = CycleClock::new();
    assert_eq!(clock.zero(1000), 1000);
    assert_eq!(clock.zero(1256), 1000);
    assert_eq!(timer_timestamp(1000, 1256, 2), 512);
    assert_eq!(timer_timestamp(1000, 1000, 8), 0);
}

#[test]
fn ring_sizes() {
    assert_eq!(frames_in(500_000_000, 48000), 24000);
    assert_eq!(frames_in(1, 48000), 0);
    assert_eq!(samples_of_frames(24000, 2), 48000);
}

#[test]
fn interleaved_stays_exhausted() {
    let mut it = Interleaved::new(1, 1);
    assert_eq!(it.next(), Some((0, 0)));
    assert_eq!(it.next(), None);
    assert_eq!(it.next(), None);
    assert_eq!(it.len(), 0);
}

#[test]
fn ring_samples_sizes_and_overflow() {
    assert_eq!(ring_samples(500_000_000, 48000, 2), Some(48000));
    assert_eq!(ring_samples(1, 48000, 2), Some(0));
    assert_eq!(ring_samples(u128::MAX, 2, 1), None);
    assert_eq!(ring_samples(u128::MAX / 4, 2, 1), None);
    assert_eq!(ring_samples(1_000_000_000, 48000, usize::MAX), None);
}
