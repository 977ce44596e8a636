//! The laws of the histogram: where a value is counted, and what a reader
//! gets once the writers are done.
//!
//! The counters are shared between threads, so no contract of `observe` or
//! `collect` can speak of what they hold. The laws of conservation speak of
//! readings instead: of what a shard's counters amount to once a given row of
//! observations, and no other, has been recorded in it in full, and of the
//! snapshot that two such readings make.

use crate::buckets::{
    first_at_least, lemma_first_at_least, HistogramBuckets, TrustedHistogramBuckets,
};
use crate::histogram::{accepted, bucket_count_for, labels_for, slot_for};
use crate::snapshot::{
    counts_of, lemma_total_bounds, lemma_total_merged, lemma_total_shown, mergeable, merged_buckets,
    snapshot_of, total, Reading,
};
use crate::value::{same_value, HistogramValue};
use vstd::prelude::*;

verus! {

/// The number of `values` that go to the counter `slot`.
pub open spec fn tally<B: HistogramBuckets>(buckets: B, values: Seq<B::Value>, slot: int) -> nat
    decreases values.len(),
{
    if values.len() == 0 {
        0
    } else {
        tally(buckets, values.drop_last(), slot) + if slot_for(buckets, values.last()) == slot {
            1nat
        } else {
            0nat
        }
    }
}

/// The sum of `values`, added one after the other to what a counter at zero
/// stands for.
pub open spec fn sum_of<V: HistogramValue>(values: Seq<V>) -> V
    decreases values.len(),
{
    if values.len() == 0 {
        V::spec_from_bits(0)
    } else {
        sum_of(values.drop_last()).spec_combine(values.last())
    }
}

/// The sum of integers, without a limit.
pub open spec fn exact_sum(values: Seq<u64>) -> nat
    decreases values.len(),
{
    if values.len() == 0 {
        0
    } else {
        exact_sum(values.drop_last()) + values.last() as nat
    }
}

/// Whether the buckets name a counter that exists for each of `values`.
pub open spec fn all_accepted<B: HistogramBuckets>(buckets: B, values: Seq<B::Value>) -> bool {
    forall|i: int| 0 <= i < values.len() ==> accepted(buckets, #[trigger] values[i])
}

/// Whether `reading` is what a shard holds once the observations `values`,
/// and no others, have been recorded in it in full.
pub open spec fn recorded<B: HistogramBuckets>(
    buckets: B,
    values: Seq<B::Value>,
    reading: Reading<B::Value>,
) -> bool {
    &&& reading.0 == values.len()
    &&& reading.1 == sum_of(values)
    &&& reading.2@.len() == bucket_count_for(buckets.spec_values())
    &&& forall|slot: int|
        0 <= slot < reading.2@.len() ==> #[trigger] reading.2@[slot] == tally(buckets, values, slot)
}

/// Trusted buckets name a counter that exists for every value.
pub proof fn trusted_buckets_accept<B: TrustedHistogramBuckets>(buckets: B, value: B::Value)
    ensures
        accepted(buckets, value),
{
    buckets.bucket_index_in_bounds(&value);
}

/// An accepted value goes to a counter that exists.
pub proof fn accepted_slot_exists<B: HistogramBuckets>(buckets: B, value: B::Value)
    requires
        accepted(buckets, value),
    ensures
        0 <= slot_for(buckets, value) < bucket_count_for(buckets.spec_values()),
{
}

/// A value goes to the counter of the least bound that it does not exceed,
/// and past every bound if it exceeds them all: to the sink if it is not a
/// number, else to the counter above every bound. This holds wherever the
/// bucket of a value is the first bound that holds it, as with every row of
/// bounds of this library.
pub proof fn placement<B: HistogramBuckets>(buckets: B, value: B::Value)
    requires
        buckets.spec_values().len() <= usize::MAX,
        buckets.spec_bucket_index(&value) == first_at_least(buckets.spec_values(), value),
    ensures
        ({
            let bounds = buckets.spec_values();
            let slot = slot_for(buckets, value);
            &&& 0 <= slot < bucket_count_for(bounds)
            &&& forall|j: int| 0 <= j < slot && j < bounds.len() ==> !value.spec_within(&bounds[j])
            &&& slot < bounds.len() ==> value.spec_within(&bounds[slot])
            &&& slot == bounds.len() ==> !(B::Value::HAS_NAN && value.spec_is_nan())
            &&& slot > bounds.len() ==> value.spec_is_nan()
        }),
{
    lemma_first_at_least(buckets.spec_values(), value);
}

/// An integer goes to the counter of the least bound that is not below it,
/// and to the counter above every bound if it is above them all.
pub proof fn integer_placement(bounds: Vec<u64>, value: u64)
    ensures
        ({
            let slot = slot_for(bounds, value);
            &&& 0 <= slot <= bounds@.len()
            &&& forall|j: int| 0 <= j < slot ==> bounds@[j] < value
            &&& slot < bounds@.len() ==> value <= bounds@[slot]
        }),
{
    assert(bounds@.len() == bounds.len());
    lemma_first_at_least(bounds@, value);
}

/// The sum of a sequence of numbers.
pub(crate) open spec fn sum_nat(counts: Seq<nat>) -> nat
    decreases counts.len(),
{
    if counts.len() == 0 {
        0
    } else {
        sum_nat(counts.drop_last()) + counts.last()
    }
}

/// The tally of every counter.
pub(crate) open spec fn tallies<B: HistogramBuckets>(
    buckets: B,
    values: Seq<B::Value>,
) -> Seq<nat> {
    Seq::new(
        bucket_count_for(buckets.spec_values()) as nat,
        |slot: int| tally(buckets, values, slot),
    )
}

/// Zeros add up to zero.
pub(crate) proof fn lemma_sum_nat_zero(counts: Seq<nat>)
    requires
        forall|i: int| 0 <= i < counts.len() ==> counts[i] == 0,
    ensures
        sum_nat(counts) == 0,
    decreases counts.len(),
{
    if counts.len() > 0 {
        lemma_sum_nat_zero(counts.drop_last());
    }
}

/// Raising one number by one raises the sum by one.
pub(crate) proof fn lemma_sum_nat_bump(before: Seq<nat>, after: Seq<nat>, at: int)
    requires
        before.len() == after.len(),
        0 <= at < before.len(),
        after[at] == before[at] + 1,
        forall|i: int| 0 <= i < before.len() && i != at ==> after[i] == before[i],
    ensures
        sum_nat(after) == sum_nat(before) + 1,
    decreases before.len(),
{
    let last = before.len() - 1;
    if at == last {
        assert(after.drop_last() =~= before.drop_last());
    } else {
        lemma_sum_nat_bump(before.drop_last(), after.drop_last(), at);
    }
}

/// Counts add up to what the same numbers add up to.
pub(crate) proof fn lemma_total_is_sum_nat(counts: Seq<u64>, tallied: Seq<nat>)
    requires
        counts.len() == tallied.len(),
        forall|i: int| 0 <= i < counts.len() ==> counts[i] == tallied[i],
    ensures
        total(counts) == sum_nat(tallied),
    decreases counts.len(),
{
    if counts.len() > 0 {
        lemma_total_is_sum_nat(counts.drop_last(), tallied.drop_last());
    }
}

/// Every accepted value is tallied by exactly one counter.
proof fn lemma_tallies_sum<B: HistogramBuckets>(buckets: B, values: Seq<B::Value>)
    requires
        all_accepted(buckets, values),
    ensures
        sum_nat(tallies(buckets, values)) == values.len(),
    decreases values.len(),
{
    if values.len() == 0 {
        lemma_sum_nat_zero(tallies(buckets, values));
    } else {
        let rest = values.drop_last();
        assert(all_accepted(buckets, rest)) by {
            assert forall|i: int| 0 <= i < rest.len() implies accepted(
                buckets,
                #[trigger] rest[i],
            ) by {
                assert(rest[i] == values[i]);
            }
        }
        lemma_tallies_sum(buckets, rest);
        assert(accepted(buckets, values[values.len() - 1]));
        accepted_slot_exists(buckets, values.last());
        lemma_sum_nat_bump(
            tallies(buckets, rest),
            tallies(buckets, values),
            slot_for(buckets, values.last()),
        );
    }
}

/// The tally of two rows of values is the sum of their tallies.
proof fn lemma_tally_concat<B: HistogramBuckets>(
    buckets: B,
    first: Seq<B::Value>,
    second: Seq<B::Value>,
    slot: int,
)
    ensures
        tally(buckets, first + second, slot) == tally(buckets, first, slot) + tally(
            buckets,
            second,
            slot,
        ),
    decreases second.len(),
{
    if second.len() == 0 {
        assert(first + second =~= first);
    } else {
        assert((first + second).drop_last() =~= first + second.drop_last());
        lemma_tally_concat(buckets, first, second.drop_last(), slot);
    }
}

/// The sum of two rows of integers is the sum of their sums.
proof fn lemma_exact_sum_concat(first: Seq<u64>, second: Seq<u64>)
    ensures
        exact_sum(first + second) == exact_sum(first) + exact_sum(second),
    decreases second.len(),
{
    if second.len() == 0 {
        assert(first + second =~= first);
    } else {
        assert((first + second).drop_last() =~= first + second.drop_last());
        lemma_exact_sum_concat(first, second.drop_last());
    }
}

/// The bucket counts of a shard whose writers are done add up to its count:
/// the reading that a reader waits for.
pub proof fn recorded_is_settled<B: HistogramBuckets>(
    buckets: B,
    values: Seq<B::Value>,
    reading: Reading<B::Value>,
)
    requires
        all_accepted(buckets, values),
        recorded(buckets, values, reading),
    ensures
        reading.0 == total(reading.2@),
{
    lemma_tallies_sum(buckets, values);
    lemma_total_is_sum_nat(reading.2@, tallies(buckets, values));
}

/// Nothing is lost and nothing is counted twice: merging what the two shards
/// hold once their writers are done gives the number of all the
/// observations, and for each bucket the number of those that went to it.
pub proof fn conservation<B: HistogramBuckets>(
    buckets: B,
    cold_values: Seq<B::Value>,
    hot_values: Seq<B::Value>,
    cold: Reading<B::Value>,
    hot: Reading<B::Value>,
)
    requires
        all_accepted(buckets, cold_values),
        all_accepted(buckets, hot_values),
        recorded(buckets, cold_values, cold),
        recorded(buckets, hot_values, hot),
        cold.0 + hot.0 <= u64::MAX,
    ensures
        mergeable(cold.0, cold.2@, hot.0, hot.2@),
        ({
            let all = cold_values + hot_values;
            let merged = merged_buckets(labels_for(buckets.spec_values()), cold.2@, hot.2@);
            let snapshot = snapshot_of(labels_for(buckets.spec_values()), cold, hot);
            &&& snapshot.0 == all.len()
            &&& total(counts_of(snapshot.2)) == all.len()
            &&& snapshot.1 == sum_of(cold_values).spec_combine(sum_of(hot_values))
            &&& merged.len() == bucket_count_for(buckets.spec_values())
            &&& forall|slot: int|
                0 <= slot < merged.len() ==> (#[trigger] merged[slot]).1 == tally(
                    buckets,
                    all,
                    slot,
                )
        }),
{
    let all = cold_values + hot_values;
    let labels = labels_for(buckets.spec_values());
    let merged = merged_buckets(labels, cold.2@, hot.2@);
    recorded_is_settled(buckets, cold_values, cold);
    recorded_is_settled(buckets, hot_values, hot);
    assert forall|i: int| 0 <= i < cold.2@.len() && i < hot.2@.len() implies #[trigger] cold.2@[i]
        + hot.2@[i] <= u64::MAX by {
        lemma_total_bounds(cold.2@, i);
        lemma_total_bounds(hot.2@, i);
    }
    lemma_total_merged(labels, cold.2@, hot.2@);
    lemma_total_shown(merged);
    assert forall|slot: int| 0 <= slot < merged.len() implies (#[trigger] merged[slot]).1 == tally(
        buckets,
        all,
        slot,
    ) by {
        lemma_tally_concat(buckets, cold_values, hot_values, slot);
        assert(cold.2@[slot] == tally(buckets, cold_values, slot));
        assert(hot.2@[slot] == tally(buckets, hot_values, slot));
    }
}

/// The sum of integers is kept up to the width of the counter: however the
/// observations were spread over the two shards, the merged sum is the sum
/// of all of them modulo 2^64, and the sum itself where that fits in 64 bits.
pub proof fn integer_sum_conservation(cold_values: Seq<u64>, hot_values: Seq<u64>)
    ensures
        ({
            let all = cold_values + hot_values;
            &&& sum_of(cold_values).spec_combine(sum_of(hot_values)) == sum_of(all)
            &&& sum_of(all) == exact_sum(all) % 0x1_0000_0000_0000_0000
            &&& exact_sum(all) <= u64::MAX ==> sum_of(all) == exact_sum(all)
        }),
{
    let all = cold_values + hot_values;
    lemma_sum_of_integers(cold_values);
    lemma_sum_of_integers(hot_values);
    lemma_sum_of_integers(all);
    lemma_exact_sum_concat(cold_values, hot_values);
    lemma_wrapping_add_is_mod(sum_of(cold_values), sum_of(hot_values));
    vstd::arithmetic::div_mod::lemma_add_mod_noop(
        exact_sum(cold_values) as int,
        exact_sum(hot_values) as int,
        0x1_0000_0000_0000_0000,
    );
}

/// The sum of two integers, as the counter adds them, is their sum modulo
/// 2^64.
proof fn lemma_wrapping_add_is_mod(x: u64, y: u64)
    ensures
        x.spec_combine(y) == (x + y) % 0x1_0000_0000_0000_0000,
{
    if x + y > u64::MAX {
        vstd::arithmetic::div_mod::lemma_mod_add_multiples_vanish(
            x + y - 0x1_0000_0000_0000_0000,
            0x1_0000_0000_0000_0000,
        );
        vstd::arithmetic::div_mod::lemma_small_mod(
            (x + y - 0x1_0000_0000_0000_0000) as nat,
            0x1_0000_0000_0000_0000,
        );
    } else {
        vstd::arithmetic::div_mod::lemma_small_mod((x + y) as nat, 0x1_0000_0000_0000_0000);
    }
}

/// The sum of integers, as the counter adds them, is their sum modulo 2^64.
proof fn lemma_sum_of_integers(values: Seq<u64>)
    ensures
        sum_of(values) == exact_sum(values) % 0x1_0000_0000_0000_0000,
    decreases values.len(),
{
    if values.len() > 0 {
        lemma_sum_of_integers(values.drop_last());
        lemma_wrapping_add_is_mod(sum_of(values.drop_last()), values.last());
        vstd::arithmetic::div_mod::lemma_add_mod_noop(
            exact_sum(values.drop_last()) as int,
            values.last() as int,
            0x1_0000_0000_0000_0000,
        );
        vstd::arithmetic::div_mod::lemma_small_mod(
            values.last() as nat,
            0x1_0000_0000_0000_0000,
        );
    }
}

/// It does not matter which of the two shards takes the writes: `merge`
/// makes the same of two readings whichever of them comes first. The counts
/// and the buckets are the same, and so are the sums, unless neither sum is
/// a number. So a reader that finds in the two shards what the reader before
/// it found gets the same snapshot, though it reads them in the other order.
pub proof fn merge_is_symmetric<V: HistogramValue>(
    labels: Seq<V>,
    first: Reading<V>,
    second: Reading<V>,
)
    ensures
        ({
            let one = snapshot_of(labels, first, second);
            let other = snapshot_of(labels, second, first);
            &&& one.0 == other.0
            &&& same_value(one.1, other.1)
            &&& one.2 == other.2
            &&& !one.1.spec_is_nan() ==> one == other
        }),
{
    V::combine_commutes(first.1, second.1);
    assert(merged_buckets(labels, first.2@, second.2@) =~= merged_buckets(
        labels,
        second.2@,
        first.2@,
    ));
}

} // verus!
