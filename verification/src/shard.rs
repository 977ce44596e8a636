//! One of the two groups of counters that observations are written to.
//!
//! A writer adds to a bucket, then to the sum, then to the count; the last
//! step publishes the other two. A reader takes the shard's contents for
//! settled when the count equals the sum of the bucket counts.

use crate::buckets::HistogramBuckets;
use crate::counters::{
    lines_for, Counters, COUNTERS_PER_CACHE_LINE, HEADER_COUNTERS, MAX_BUCKET_COUNT,
};
use crate::snapshot::{
    is_waiting, lemma_partial_total_all, lemma_partial_total_set, partial_total, saturated,
    settled, settled_count, total, Reading, WAITING_FLAG,
};
use crate::value::HistogramValue;
use futures_util::task::AtomicWaker;
use std::marker::PhantomData;
use std::sync::atomic::Ordering;
use std::task::Context;
use vstd::prelude::*;

verus! {

/// How often a reader looks at a shard before it parks.
pub const SPIN_LOOP_LIMIT: usize = 10;

/// The counters of one shard of a histogram over the buckets `B`.
#[derive(Debug)]
pub struct Shard<B: HistogramBuckets> {
    counters: Counters,
    bucket_count: usize,
    _phantom: PhantomData<B>,
}

impl<B: HistogramBuckets> Shard<B> {
    /// The number of buckets that the shard was made for, while it has a
    /// counter for each of them.
    pub closed spec fn made_for(&self) -> Option<usize> {
        if self.counters.lines() > 0 && self.bucket_count <= self.counters.capacity() {
            Some(self.bucket_count)
        } else {
            None
        }
    }

    /// The number of groups of counters that the shard holds.
    pub closed spec fn lines(&self) -> nat {
        self.counters.lines()
    }

    /// The number of buckets that the shard can count.
    pub open spec fn capacity(&self) -> int {
        self.lines() * COUNTERS_PER_CACHE_LINE - HEADER_COUNTERS
    }

    /// A shard for `bucket_count` buckets, with every counter at zero.
    pub fn new(bucket_count: usize) -> (shard: Self)
        requires
            bucket_count <= MAX_BUCKET_COUNT,
        ensures
            shard.made_for() == Some(bucket_count),
            shard.lines() == lines_for(bucket_count as int),
            shard.capacity() >= bucket_count,
    {
        Shard { counters: Counters::new(bucket_count), bucket_count, _phantom: PhantomData }
    }

    /// Records one observation: in its bucket, in the sum and, last, in the
    /// count. If the count word shows that a reader waits, wakes it. The
    /// bucket is one of those that the shard was made for.
    ///
    /// The counters are shared and invisible to proofs, so nothing is stated
    /// of what they hold afterwards.
    pub fn observe(&self, value: B::Value, bucket_index: usize, waker: &AtomicWaker)
        requires
            self.made_for() matches Some(bucket_count) && bucket_index < bucket_count,
    {
        self.counters.bucket(bucket_index).fetch_add(1, Ordering::Relaxed);
        B::Value::atomic_add(self.counters.sum(), value, Ordering::Release);
        let word = self.counters.count().fetch_add(1, Ordering::Release);
        if is_waiting(word) {
            waker.wake();
        }
    }

    /// Reads the sum and every bucket counter into `buckets`, which has a
    /// place for each bucket that the shard was made for. Returns the sum and
    /// what the bucket counts add up to, or the largest integer where that
    /// does not fit.
    ///
    /// What is read depends on the writers. The contract holds whatever was
    /// read.
    pub fn read_sum_and_buckets(&self, buckets: &mut Vec<u64>) -> (read: (B::Value, u64))
        requires
            self.made_for() == Some(old(buckets).len()),
        ensures
            final(buckets).len() == old(buckets).len(),
            read.1 == saturated(total(final(buckets)@)),
    {
        let bucket_count = buckets.len();
        let sum = B::Value::from_bits(self.counters.sum().load(Ordering::Acquire));
        let mut expected_count: u64 = 0;
        let mut i: usize = 0;
        while i < bucket_count
            invariant
                i <= bucket_count,
                buckets.len() == bucket_count,
                bucket_count <= self.capacity(),
                expected_count == saturated(partial_total(buckets@, i)),
            decreases bucket_count - i,
        {
            let count = self.counters.bucket(i).load(Ordering::Relaxed);
            proof {
                lemma_partial_total_set(buckets@, i, count);
            }
            buckets[i] = count;
            expected_count = expected_count.saturating_add(count);
            i = i + 1;
        }
        proof {
            lemma_partial_total_all(buckets@, i);
        }
        (sum, expected_count)
    }

    /// Reads the shard until the reading is settled: `SPIN_LOOP_LIMIT` times
    /// in a row, then parked between the readings.
    ///
    /// The call waits, without a limit, for the writers that are half-way
    /// through an observation. Where it has to park, it panics on a thread
    /// that is already running an executor of `futures_executor`.
    ///
    /// What is read depends on the writers. The contract holds whatever was
    /// read.
    pub fn collect(&self, bucket_count: usize, waker: &AtomicWaker) -> (reading: Reading<B::Value>)
        requires
            self.made_for() == Some(bucket_count),
        ensures
            reading.2.len() == bucket_count,
            settled(reading),
    {
        let mut buckets: Vec<u64> = vec![0; bucket_count];
        let mut spins: usize = 0;
        while spins < SPIN_LOOP_LIMIT
            invariant
                buckets.len() == bucket_count,
                self.made_for() == Some(bucket_count),
            decreases SPIN_LOOP_LIMIT - spins,
        {
            let word = self.counters.count().load(Ordering::Acquire);
            let (sum, expected_count) = self.read_sum_and_buckets(&mut buckets);
            if let Some(count) = settled_count(word, expected_count) {
                return (count, sum, buckets);
            }
            spins = spins + 1;
        }
        self.collect_cold(&mut buckets, waker)
    }

    /// One reading of the shard by a reader that is about to park. It leaves
    /// the wake handle of its task, raises the waiting flag, and reads. A
    /// settled reading is returned, with the flag lowered again and the
    /// buckets taken out of `buckets`, which is left empty; otherwise the
    /// flag stays up for the next writer to see.
    ///
    /// What is read depends on the writers. The contract holds whatever was
    /// read.
    pub fn poll_cold(
        &self,
        buckets: &mut Vec<u64>,
        waker: &AtomicWaker,
        task: &Context<'_>,
    ) -> (reading: Option<Reading<B::Value>>)
        requires
            self.made_for() == Some(old(buckets).len()),
        ensures
            reading matches Some(r) ==> r.2.len() == old(buckets).len() && settled(r),
            reading is Some ==> final(buckets)@.len() == 0,
            reading is None ==> final(buckets).len() == old(buckets).len(),
    {
        waker.register(task.waker());
        let word = self.counters.count().fetch_or(WAITING_FLAG, Ordering::Acquire);
        let (sum, expected_count) = self.read_sum_and_buckets(buckets);
        if let Some(count) = settled_count(word, expected_count) {
            let word = self.counters.count().fetch_and(!WAITING_FLAG, Ordering::Relaxed);
            if is_waiting(word) {
                let _ = waker.take();
            }
            let mut taken: Vec<u64> = Vec::new();
            std::mem::swap(buckets, &mut taken);
            return Some((count, sum, taken));
        }
        None
    }

    /// Parks the thread until `poll_cold` returns a reading, and returns it.
    ///
    /// Calls `futures_executor::block_on` on `std::future::poll_fn`. The
    /// executor calls the closure, parks the thread while the closure reports
    /// nothing, and calls it again after a writer woke the handle that the
    /// closure left. What it returns is a reading that `poll_cold` returned,
    /// so it has what `poll_cold` promises of a reading, and `buckets` is as
    /// that call of `poll_cold` left it: empty. The call returns only once a
    /// reading is settled, and it panics on a thread that is already running
    /// an executor of that crate.
    #[verifier::external_body]
    pub(crate) fn collect_cold(&self, buckets: &mut Vec<u64>, waker: &AtomicWaker) -> (reading:
        Reading<B::Value>)
        requires
            self.made_for() == Some(old(buckets).len()),
        ensures
            reading.2.len() == old(buckets).len(),
            settled(reading),
            final(buckets)@.len() == 0,
    {
        futures_executor::block_on(
            std::future::poll_fn(
                move |cx| match self.poll_cold(buckets, waker, cx) {
                    Some(reading) => std::task::Poll::Ready(reading),
                    None => std::task::Poll::Pending,
                },
            ),
        )
    }

    /// Gives the shard's counters back. Nothing can be recorded in the shard
    /// afterwards. The counters know their own extent, so `bucket_count` is
    /// not consulted.
    pub fn drop(&mut self, bucket_count: usize)
        ensures
            final(self).lines() == 0,
            final(self).made_for() is None,
    {
        self.counters.drop(bucket_count);
    }
}

} // verus!
