use futures_util::task::{noop_waker, AtomicWaker};
use std::task::Context;
use histogram::counters::MAX_BUCKET_COUNT;
use histogram::shard::{Shard, SPIN_LOOP_LIMIT};

#[test]
fn a_new_shard_is_empty() {
    let shard = Shard::<Vec<u64>>::new(3);
    let waker = AtomicWaker::new();
    assert_eq!(shard.collect(3, &waker), (0, 0, vec![0, 0, 0]));
    let none = Shard::<Vec<u64>>::new(0);
    assert_eq!(none.collect(0, &waker), (0, 0, vec![]));
}

#[test]
fn a_shard_counts_what_it_is_given() {
    let shard = Shard::<Vec<u64>>::new(10);
    let waker = AtomicWaker::new();
    shard.observe(7, 0, &waker);
    shard.observe(42, 1, &waker);
    shard.observe(43, 1, &waker);
    shard.observe(80100, 9, &waker);
    let (count, sum, buckets) = shard.collect(10, &waker);
    assert_eq!(count, 4);
    assert_eq!(sum, 80192);
    assert_eq!(buckets, vec![1, 2, 0, 0, 0, 0, 0, 0, 0, 1]);
    assert_eq!(shard.collect(10, &waker), (4, 80192, vec![1, 2, 0, 0, 0, 0, 0, 0, 0, 1]));
}

#[test]
fn reading_the_sum_and_the_buckets() {
    let shard = Shard::<Vec<u64>>::new(3);
    let waker = AtomicWaker::new();
    shard.observe(5, 2, &waker);
    shard.observe(6, 2, &waker);
    shard.observe(1, 0, &waker);
    let mut buckets = vec![9u64; 3];
    assert_eq!(shard.read_sum_and_buckets(&mut buckets), (12, 3));
    assert_eq!(buckets, vec![1, 0, 2]);
    shard.observe(7, 1, &waker);
    assert_eq!(shard.read_sum_and_buckets(&mut buckets), (19, 4));
    assert_eq!(buckets, vec![1, 1, 2]);
}

#[test]
fn a_settled_shard_is_read_at_the_first_poll() {
    let shard = Shard::<Vec<u64>>::new(2);
    let waker = AtomicWaker::new();
    let handle = noop_waker();
    let task = Context::from_waker(&handle);
    shard.observe(5, 1, &waker);
    let mut buckets = vec![0u64; 2];
    assert_eq!(shard.poll_cold(&mut buckets, &waker, &task), Some((1, 5, vec![0, 1])));
    assert_eq!(buckets, vec![]);
    assert!(waker.take().is_none());
    shard.observe(6, 0, &waker);
    assert_eq!(shard.collect(2, &waker), (2, 11, vec![1, 1]));
}

#[test]
fn the_limits() {
    assert_eq!(SPIN_LOOP_LIMIT, 10);
    assert!(MAX_BUCKET_COUNT > 1 << 30);
}

#[test]
fn a_dropped_shard_gives_its_counters_back() {
    let mut shard = Shard::<Vec<u64>>::new(100);
    let waker = AtomicWaker::new();
    shard.observe(5, 99, &waker);
    shard.drop(100);
}
