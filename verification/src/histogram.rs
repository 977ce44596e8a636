//! The histogram itself: two shards, the index of the one that takes writes,
//! and the lock that lets one reader in at a time.

use crate::buckets::{HistogramBuckets, TrustedHistogramBuckets};
use crate::counters::MAX_BUCKET_COUNT;
use crate::shard::Shard;
use crate::snapshot::{
    collected, counts_of, is_snapshot_of, lemma_collected, lemma_readings_merge,
    lemma_total_shown, made_of_readings, merge, merged_buckets, show, total, Snapshot,
};
use crate::value::HistogramValue;
use futures_util::task::AtomicWaker;
use std::sync::atomic::AtomicUsize;
use std::sync::atomic::Ordering;
use std::sync::Arc;
use std::sync::Mutex;
use vstd::prelude::*;

verus! {

/// The labels of a histogram's buckets: its bounds, then the label of the
/// bucket above them, then that of the sink for values that are not numbers,
/// where the value type has any.
pub open spec fn labels_for<V: HistogramValue>(bounds: Seq<V>) -> Seq<V> {
    let upper = bounds.push(V::spec_infinity());
    if V::HAS_NAN {
        upper.push(V::spec_nan())
    } else {
        upper
    }
}

/// The number of counters that a histogram over `bounds` keeps in each shard.
pub open spec fn bucket_count_for<V: HistogramValue>(bounds: Seq<V>) -> int {
    bounds.len() + 1 + if V::HAS_NAN {
        1int
    } else {
        0int
    }
}

/// The counter that an observation goes to: the one that its buckets name
/// for it; if they name none, the sink where the value is not a number, and
/// the bucket above every bound where it is a number.
pub open spec fn slot_for<B: HistogramBuckets>(buckets: B, value: B::Value) -> int {
    match buckets.spec_bucket_index(&value) {
        Some(i) => i as int,
        None => if B::Value::HAS_NAN && !value.spec_is_nan() {
            bucket_count_for(buckets.spec_values()) - 2
        } else {
            bucket_count_for(buckets.spec_values()) - 1
        },
    }
}

#[derive(Debug)]
struct HistogramInner<B: HistogramBuckets> {
    buckets: B,
    bucket_count: usize,
    hot_shard: AtomicUsize,
    shards: [Shard<B>; 2],
    collector: Mutex<()>,
    waker: AtomicWaker,
}

impl<B: HistogramBuckets> HistogramInner<B> {
    #[verifier::type_invariant]
    spec fn well_formed(&self) -> bool {
        &&& self.bucket_count == bucket_count_for(self.buckets.spec_values())
        &&& self.shards[0].made_for() == Some(self.bucket_count)
        &&& self.shards[1].made_for() == Some(self.bucket_count)
    }
}

/// A histogram over the buckets `B`. Clones share their counters.
///
/// With `TRUSTED_BUCKETS` the buckets are known to name only buckets that
/// exist, for every value.
#[derive(Debug)]
pub struct Histogram<B: HistogramBuckets, const TRUSTED_BUCKETS: bool>(Arc<HistogramInner<B>>);

impl<B: HistogramBuckets> Histogram<B, false> {
    /// A histogram with every counter at zero.
    pub fn new(buckets: B) -> (histogram: Self)
        requires
            buckets.spec_values().len() + 2 <= MAX_BUCKET_COUNT,
        ensures
            histogram.buckets() == buckets,
    {
        let bucket_count = buckets.values().len() + 1 + if B::Value::HAS_NAN {
            1
        } else {
            0
        };
        Histogram(
            Arc::new(
                HistogramInner {
                    buckets,
                    bucket_count,
                    hot_shard: AtomicUsize::new(0),
                    shards: [Shard::new(bucket_count), Shard::new(bucket_count)],
                    collector: Mutex::new(()),
                    waker: AtomicWaker::new(),
                },
            ),
        )
    }
}

impl<B: TrustedHistogramBuckets> Histogram<B, true> {
    /// A histogram with every counter at zero, over buckets that are known
    /// to name only buckets that exist.
    pub fn new_trusted(buckets: B) -> (histogram: Self)
        requires
            buckets.spec_values().len() + 2 <= MAX_BUCKET_COUNT,
        ensures
            histogram.buckets() == buckets,
    {
        proof {
            assert forall|value: B::Value| accepted(buckets, value) by {
                buckets.bucket_index_in_bounds(&value);
            }
        }
        Histogram(Histogram::new(buckets).0)
    }
}

/// Whether the buckets name a counter that exists for `value`, or none.
pub open spec fn accepted<B: HistogramBuckets>(buckets: B, value: B::Value) -> bool {
    buckets.spec_bucket_index(&value) matches Some(i) ==> i < bucket_count_for(
        buckets.spec_values(),
    )
}

impl<B: HistogramBuckets, const TRUSTED_BUCKETS: bool> Histogram<B, TRUSTED_BUCKETS> {
    #[verifier::type_invariant]
    spec fn trusted(&self) -> bool {
        TRUSTED_BUCKETS ==> forall|value: B::Value| accepted(self.0.buckets, value)
    }

    /// The buckets that the histogram was made with.
    pub closed spec fn buckets(&self) -> B {
        self.0.buckets
    }

    /// Whether `observe` may be called with `value`: always with trusted
    /// buckets; else where the buckets name a counter that exists.
    pub open spec fn accepts(&self, value: B::Value) -> bool {
        TRUSTED_BUCKETS || accepted(self.buckets(), value)
    }

    /// The number of counters in each shard.
    pub fn bucket_count(&self) -> (count: usize)
        ensures
            count == bucket_count_for(self.buckets().spec_values()),
    {
        proof {
            use_type_invariant(&*self.0);
        }
        self.0.bucket_count
    }

    /// The counter that an observation of `value` goes to.
    pub fn bucket_of(&self, value: &B::Value) -> (slot: usize)
        ensures
            slot == slot_for(self.buckets(), *value),
            self.accepts(*value) ==> slot < bucket_count_for(self.buckets().spec_values()),
    {
        proof {
            use_type_invariant(self);
            use_type_invariant(&*self.0);
        }
        match self.0.buckets.bucket_index(value) {
            Some(index) => index,
            None => if B::Value::HAS_NAN && !value.is_nan() {
                self.0.bucket_count - 2
            } else {
                self.0.bucket_count - 1
            },
        }
    }

    /// The labels of the histogram's counters, in order.
    pub fn labels(&self) -> (labels: Vec<B::Value>)
        ensures
            labels@ == labels_for(self.buckets().spec_values()),
            labels@.len() == bucket_count_for(self.buckets().spec_values()),
            B::Value::HAS_NAN ==> labels@.last().spec_is_nan(),
    {
        let mut labels = self.0.buckets.values();
        labels.push(B::Value::infinity());
        match B::Value::nan() {
            Some(nan) => labels.push(nan),
            None => {},
        }
        labels
    }

    /// Records an observation in the shard that takes writes.
    ///
    /// The counters are shared and invisible to proofs, so nothing is stated
    /// of what a later `collect` returns.
    pub fn observe(&self, value: B::Value)
        requires
            self.accepts(value),
    {
        proof {
            use_type_invariant(&*self.0);
        }
        let bucket_index = self.bucket_of(&value);
        let index = self.0.hot_shard.load(Ordering::Relaxed);
        let hot_shard = index & 1;
        assert(hot_shard < 2) by (bit_vector)
            requires
                hot_shard == index & 1,
        ;
        self.0.shards[hot_shard].observe(value, bucket_index, &self.0.waker);
    }

    /// Reads the histogram: the count, the sum, and each bucket's label with
    /// its own count. The sink of values that are not numbers is left out
    /// while it is empty.
    ///
    /// One reader runs at a time. It reads the shard that takes no writes,
    /// makes it the one that does, reads the other once its writers are done,
    /// and adds the two readings.
    ///
    /// The call waits, without a limit, for another reader to finish and for
    /// the writers that are half-way through an observation. Where it has to
    /// park for a writer, it panics on a thread that is already running an
    /// executor of `futures_executor`.
    ///
    /// The counters are shared and invisible to proofs. What is stated holds
    /// whatever was read: the snapshot is made of two settled readings, so
    /// its buckets add up to its count, and they carry the histogram's labels.
    pub fn collect(&self) -> (snapshot: Snapshot<B::Value>)
        ensures
            made_of_readings(labels_for(self.buckets().spec_values()), snapshot),
            snapshot.0 == total(counts_of(snapshot.2@)),
            collected(labels_for(self.buckets().spec_values()), snapshot.2@),
    {
        proof {
            use_type_invariant(&*self.0);
        }
        let _guard = match self.0.collector.lock() {
            Ok(guard) => guard,
            Err(poisoned) => poisoned.into_inner(),
        };
        let index = self.0.hot_shard.load(Ordering::Relaxed);
        let hot_shard = index & 1;
        let cold_shard = hot_shard ^ 1;
        assert(hot_shard < 2 && cold_shard < 2) by (bit_vector)
            requires
                hot_shard == index & 1,
                cold_shard == hot_shard ^ 1,
        ;
        let cold = self.0.shards[cold_shard].collect(self.0.bucket_count, &self.0.waker);
        self.0.hot_shard.store(cold_shard, Ordering::Relaxed);
        let hot = self.0.shards[hot_shard].collect(self.0.bucket_count, &self.0.waker);
        let labels = self.labels();
        proof {
            lemma_readings_merge(labels@, cold, hot);
            lemma_total_shown(merged_buckets(labels@, cold.2@, hot.2@));
            lemma_collected(labels@, merged_buckets(labels@, cold.2@, hot.2@));
        }
        let (count, sum, buckets) = merge(&labels, cold, hot);
        let snapshot = (count, sum, show(buckets));
        assert(is_snapshot_of(snapshot, labels@, cold, hot));
        snapshot
    }
}

impl<B: HistogramBuckets, const TRUSTED_BUCKETS: bool> Clone for Histogram<B, TRUSTED_BUCKETS> {
    /// Another handle on the same counters.
    fn clone(&self) -> (handle: Self)
        ensures
            handle == *self,
    {
        proof {
            use_type_invariant(self);
        }
        Histogram(self.0.clone())
    }
}

/// Records an integer in a histogram over a slice of bounds. Such buckets
/// name a counter that exists for every value, so any value is taken.
pub fn observe_u64(h: &Histogram<&[u64], false>, v: u64) {
    proof {
        h.buckets().bucket_index_in_bounds(&v);
    }
    h.observe(v)
}

} // verus!
