//! Why a settled reading can be relied on.
//!
//! A writer takes three steps in a shard: it bumps its bucket, adds to the
//! sum, and commits by raising the count. A reader reads the count, then the
//! sum, then the buckets, and takes the reading if the buckets add up to the
//! count.
//!
//! This module is a model of that protocol. It gives every step a time of
//! its own and takes a read to see exactly the steps that took place before
//! it. Of this model it proves that a settled reading is the record of the
//! observations that were committed when the count was read: no more and no
//! less, in the buckets and in the sum. The executable code is not held to
//! the model by any proof; it keeps the order of the steps, and asks of its
//! atomic operations the orderings that publish a writer's earlier steps
//! with its later ones.

use crate::buckets::HistogramBuckets;
use crate::histogram::{accepted, bucket_count_for, labels_for, slot_for};
use crate::laws::{
    accepted_slot_exists, all_accepted, conservation, lemma_sum_nat_bump, lemma_sum_nat_zero,
    lemma_total_is_sum_nat, recorded, recorded_is_settled, sum_nat, sum_of, tally,
};
use crate::snapshot::{counts_of, settled, snapshot_of, total, Reading};
use crate::value::HistogramValue;
use vstd::prelude::*;

verus! {

/// One observation, and the times of the three steps of its writer.
pub struct Writer<V> {
    pub value: V,
    pub bumped: int,
    pub added: int,
    pub committed: int,
}

/// The times at which a reader reads the count, the sum and each bucket.
pub struct Reader {
    pub count: int,
    pub sum: int,
    pub buckets: Seq<int>,
}

/// Each writer takes its steps in order, and the writers are listed in the
/// order in which they add to the sum.
pub open spec fn writers_in_order<V>(writers: Seq<Writer<V>>) -> bool {
    &&& forall|i: int|
        0 <= i < writers.len() ==> (#[trigger] writers[i]).bumped < writers[i].added
            < writers[i].committed
    &&& forall|i: int, j: int|
        0 <= i < j < writers.len() ==> (#[trigger] writers[i]).added < (#[trigger] writers[j]).added
}

/// The reader reads the count first, then the sum, then the buckets.
pub open spec fn reader_in_order(reader: Reader) -> bool {
    &&& reader.count < reader.sum
    &&& forall|slot: int|
        0 <= slot < reader.buckets.len() ==> reader.sum < #[trigger] reader.buckets[slot]
}

/// The values of the writers, in the order of the writers.
pub open spec fn values_of<V>(writers: Seq<Writer<V>>) -> Seq<V> {
    Seq::new(writers.len(), |i: int| writers[i].value)
}

/// Whether the reader finds the writer's commit in the count.
pub open spec fn counted<V>(writer: Writer<V>, reader: Reader) -> bool {
    writer.committed < reader.count
}

/// Whether the reader finds the writer's value in the sum.
pub open spec fn summed<V>(writer: Writer<V>, reader: Reader) -> bool {
    writer.added < reader.sum
}

/// Whether the reader finds the writer's bump in its bucket.
pub open spec fn bumped<B: HistogramBuckets>(
    buckets: B,
    writer: Writer<B::Value>,
    reader: Reader,
) -> bool {
    writer.bumped < reader.buckets[slot_for(buckets, writer.value)]
}

/// The count that the reader reads.
pub open spec fn count_seen<V>(writers: Seq<Writer<V>>, reader: Reader) -> nat
    decreases writers.len(),
{
    if writers.len() == 0 {
        0
    } else {
        count_seen(writers.drop_last(), reader) + if counted(writers.last(), reader) {
            1nat
        } else {
            0nat
        }
    }
}

/// The values that the sum holds when the reader reads it, in the order in
/// which they were added.
pub open spec fn values_seen<V>(writers: Seq<Writer<V>>, reader: Reader) -> Seq<V>
    decreases writers.len(),
{
    if writers.len() == 0 {
        Seq::empty()
    } else if summed(writers.last(), reader) {
        values_seen(writers.drop_last(), reader).push(writers.last().value)
    } else {
        values_seen(writers.drop_last(), reader)
    }
}

/// The count that the reader reads in the bucket `slot`.
pub open spec fn bucket_seen<B: HistogramBuckets>(
    buckets: B,
    writers: Seq<Writer<B::Value>>,
    reader: Reader,
    slot: int,
) -> nat
    decreases writers.len(),
{
    if writers.len() == 0 {
        0
    } else {
        bucket_seen(buckets, writers.drop_last(), reader, slot) + if slot_for(
            buckets,
            writers.last().value,
        ) == slot && bumped(buckets, writers.last(), reader) {
            1nat
        } else {
            0nat
        }
    }
}

/// Whether `reading` is what the reader reads.
pub open spec fn seen<B: HistogramBuckets>(
    buckets: B,
    writers: Seq<Writer<B::Value>>,
    reader: Reader,
    reading: Reading<B::Value>,
) -> bool {
    &&& reading.0 == count_seen(writers, reader)
    &&& reading.1 == sum_of(values_seen(writers, reader))
    &&& reading.2@.len() == reader.buckets.len()
    &&& forall|slot: int|
        0 <= slot < reading.2@.len() ==> #[trigger] reading.2@[slot] == bucket_seen(
            buckets,
            writers,
            reader,
            slot,
        )
}

/// The number of bumps that the reader finds, in whatever bucket.
spec fn bumps_seen<B: HistogramBuckets>(
    buckets: B,
    writers: Seq<Writer<B::Value>>,
    reader: Reader,
) -> nat
    decreases writers.len(),
{
    if writers.len() == 0 {
        0
    } else {
        bumps_seen(buckets, writers.drop_last(), reader) + if bumped(
            buckets,
            writers.last(),
            reader,
        ) {
            1nat
        } else {
            0nat
        }
    }
}

/// The count that the reader reads in every bucket.
spec fn buckets_seen<B: HistogramBuckets>(
    buckets: B,
    writers: Seq<Writer<B::Value>>,
    reader: Reader,
) -> Seq<nat> {
    Seq::new(reader.buckets.len(), |slot: int| bucket_seen(buckets, writers, reader, slot))
}

/// Whether the buckets name a counter that exists for the value of each
/// writer.
pub open spec fn writers_accepted<B: HistogramBuckets>(
    buckets: B,
    writers: Seq<Writer<B::Value>>,
) -> bool {
    forall|i: int| 0 <= i < writers.len() ==> accepted(buckets, (#[trigger] writers[i]).value)
}

/// What precedes what: a commit that is in the count has its value in the
/// sum, and a value that is in the sum has its bump in the bucket.
proof fn lemma_steps<B: HistogramBuckets>(
    buckets: B,
    writers: Seq<Writer<B::Value>>,
    reader: Reader,
    i: int,
)
    requires
        writers_in_order(writers),
        reader_in_order(reader),
        writers_accepted(buckets, writers),
        reader.buckets.len() == bucket_count_for(buckets.spec_values()),
        0 <= i < writers.len(),
    ensures
        counted(writers[i], reader) ==> summed(writers[i], reader),
        summed(writers[i], reader) ==> bumped(buckets, writers[i], reader),
{
    accepted_slot_exists(buckets, writers[i].value);
}

/// The buckets that the reader reads add up to the number of bumps that it
/// finds.
proof fn lemma_buckets_add_up<B: HistogramBuckets>(
    buckets: B,
    writers: Seq<Writer<B::Value>>,
    reader: Reader,
)
    requires
        writers_accepted(buckets, writers),
        reader.buckets.len() == bucket_count_for(buckets.spec_values()),
    ensures
        sum_nat(buckets_seen(buckets, writers, reader)) == bumps_seen(buckets, writers, reader),
    decreases writers.len(),
{
    if writers.len() == 0 {
        lemma_sum_nat_zero(buckets_seen(buckets, writers, reader));
    } else {
        let rest = writers.drop_last();
        assert(writers_accepted(buckets, rest)) by {
            assert forall|i: int| 0 <= i < rest.len() implies accepted(
                buckets,
                (#[trigger] rest[i]).value,
            ) by {
                assert(rest[i] == writers[i]);
            }
        }
        lemma_buckets_add_up(buckets, rest, reader);
        if bumped(buckets, writers.last(), reader) {
            assert(accepted(buckets, writers[writers.len() - 1].value));
            accepted_slot_exists(buckets, writers.last().value);
            lemma_sum_nat_bump(
                buckets_seen(buckets, rest, reader),
                buckets_seen(buckets, writers, reader),
                slot_for(buckets, writers.last().value),
            );
        } else {
            assert(buckets_seen(buckets, writers, reader) =~= buckets_seen(buckets, rest, reader));
        }
    }
}

/// The reader finds no more commits than bumps; where it finds as many, every
/// bump that it finds belongs to a commit that it finds.
proof fn lemma_commits_and_bumps<B: HistogramBuckets>(
    buckets: B,
    writers: Seq<Writer<B::Value>>,
    reader: Reader,
    upto: int,
)
    requires
        writers_in_order(writers),
        reader_in_order(reader),
        writers_accepted(buckets, writers),
        reader.buckets.len() == bucket_count_for(buckets.spec_values()),
        0 <= upto <= writers.len(),
    ensures
        count_seen(writers.take(upto), reader) <= bumps_seen(buckets, writers.take(upto), reader),
        count_seen(writers.take(upto), reader) == bumps_seen(buckets, writers.take(upto), reader)
            ==> forall|i: int|
            0 <= i < upto ==> (bumped(buckets, #[trigger] writers[i], reader) ==> counted(
                writers[i],
                reader,
            )),
    decreases upto,
{
    if upto > 0 {
        lemma_commits_and_bumps(buckets, writers, reader, upto - 1);
        lemma_steps(buckets, writers, reader, upto - 1);
        assert(writers.take(upto).drop_last() =~= writers.take(upto - 1));
        assert(writers.take(upto).last() == writers[upto - 1]);
    }
}

/// Where the writers up to `k` are exactly those that the reader finds, in
/// the count, in the sum and in the buckets, it reads the record of their
/// values.
proof fn lemma_prefix_is_read<B: HistogramBuckets>(
    buckets: B,
    writers: Seq<Writer<B::Value>>,
    reader: Reader,
    k: int,
    upto: int,
    slot: int,
)
    requires
        0 <= k <= writers.len(),
        0 <= upto <= writers.len(),
        forall|i: int|
            0 <= i < writers.len() ==> (counted(#[trigger] writers[i], reader) <==> i < k),
        forall|i: int|
            0 <= i < writers.len() ==> (summed(#[trigger] writers[i], reader) <==> i < k),
        forall|i: int|
            0 <= i < writers.len() ==> (bumped(buckets, #[trigger] writers[i], reader) <==> i < k),
    ensures
        ({
            let found = if upto <= k {
                upto
            } else {
                k
            };
            &&& count_seen(writers.take(upto), reader) == found
            &&& values_seen(writers.take(upto), reader) == values_of(writers.take(found))
            &&& bucket_seen(buckets, writers.take(upto), reader, slot) == tally(
                buckets,
                values_of(writers.take(found)),
                slot,
            )
        }),
    decreases upto,
{
    if upto == 0 {
        assert(values_of(writers.take(0)) =~= Seq::<B::Value>::empty());
    } else {
        lemma_prefix_is_read(buckets, writers, reader, k, upto - 1, slot);
        assert(writers.take(upto).drop_last() =~= writers.take(upto - 1));
        assert(writers.take(upto).last() == writers[upto - 1]);
        if upto <= k {
            assert(values_of(writers.take(upto)).drop_last() =~= values_of(writers.take(upto - 1)));
            assert(values_of(writers.take(upto)) =~= values_of(writers.take(upto - 1)).push(
                writers[upto - 1].value,
            ));
        }
    }
}

/// The writers whose values the reader finds in the sum are the first so
/// many, and as many as it finds values.
proof fn lemma_first_are_summed<V>(writers: Seq<Writer<V>>, reader: Reader, upto: int)
    requires
        writers_in_order(writers),
        0 <= upto <= writers.len(),
    ensures
        values_seen(writers.take(upto), reader).len() <= upto,
        forall|i: int|
            0 <= i < upto ==> (summed(#[trigger] writers[i], reader) <==> i < values_seen(
                writers.take(upto),
                reader,
            ).len()),
    decreases upto,
{
    if upto > 0 {
        lemma_first_are_summed(writers, reader, upto - 1);
        assert(writers.take(upto).drop_last() =~= writers.take(upto - 1));
        assert(writers.take(upto).last() == writers[upto - 1]);
        if summed(writers[upto - 1], reader) {
            assert forall|i: int| 0 <= i < upto implies summed(#[trigger] writers[i], reader) by {
                if i < upto - 1 {
                    assert(writers[i].added < writers[upto - 1].added);
                }
            }
        }
    }
}

/// A settled reading is a record. If the buckets that a reader reads add up
/// to the count that it reads, then it has read, in the count, in the sum and
/// in the buckets, the observations of the writers that had committed when it
/// read the count, and of no others. Those writers are the first so many to
/// have added to the sum.
pub proof fn settled_reading_is_a_record<B: HistogramBuckets>(
    buckets: B,
    writers: Seq<Writer<B::Value>>,
    reader: Reader,
    reading: Reading<B::Value>,
) -> (k: int)
    requires
        writers_in_order(writers),
        reader_in_order(reader),
        writers_accepted(buckets, writers),
        reader.buckets.len() == bucket_count_for(buckets.spec_values()),
        seen(buckets, writers, reader, reading),
        settled(reading),
    ensures
        0 <= k <= writers.len(),
        forall|i: int|
            0 <= i < writers.len() ==> (counted(#[trigger] writers[i], reader) <==> i < k),
        recorded(buckets, values_of(writers.take(k)), reading),
{
    let all = writers.len() as int;
    assert(writers.take(all) =~= writers);
    lemma_buckets_add_up(buckets, writers, reader);
    lemma_total_is_sum_nat(reading.2@, buckets_seen(buckets, writers, reader));
    lemma_commits_and_bumps(buckets, writers, reader, all);
    lemma_first_are_summed(writers, reader, all);
    let k = values_seen(writers, reader).len() as int;
    assert forall|i: int| 0 <= i < writers.len() implies (counted(#[trigger] writers[i], reader)
        <==> summed(writers[i], reader)) && (summed(writers[i], reader) <==> bumped(
        buckets,
        writers[i],
        reader,
    )) by {
        lemma_steps(buckets, writers, reader, i);
    }
    assert forall|slot: int| 0 <= slot < reading.2@.len() implies #[trigger] reading.2@[slot]
        == tally(buckets, values_of(writers.take(k)), slot) by {
        lemma_prefix_is_read(buckets, writers, reader, k, all, slot);
    }
    lemma_prefix_is_read(buckets, writers, reader, k, all, 0);
    k
}

/// A shard at rest reads settled. Once every writer has committed, a reader
/// reads the record of all of them, and the buckets that it reads add up to
/// the count: it does not wait.
pub proof fn reading_at_rest_is_settled<B: HistogramBuckets>(
    buckets: B,
    writers: Seq<Writer<B::Value>>,
    reader: Reader,
    reading: Reading<B::Value>,
)
    requires
        writers_in_order(writers),
        reader_in_order(reader),
        writers_accepted(buckets, writers),
        reader.buckets.len() == bucket_count_for(buckets.spec_values()),
        seen(buckets, writers, reader, reading),
        forall|i: int| 0 <= i < writers.len() ==> counted(#[trigger] writers[i], reader),
    ensures
        recorded(buckets, values_of(writers), reading),
        reading.0 == total(reading.2@),
{
    let all = writers.len() as int;
    assert(writers.take(all) =~= writers);
    assert forall|i: int| 0 <= i < writers.len() implies summed(#[trigger] writers[i], reader)
        && bumped(buckets, writers[i], reader) by {
        lemma_steps(buckets, writers, reader, i);
    }
    assert forall|slot: int| 0 <= slot < reading.2@.len() implies #[trigger] reading.2@[slot]
        == tally(buckets, values_of(writers), slot) by {
        lemma_prefix_is_read(buckets, writers, reader, all, all, slot);
    }
    lemma_prefix_is_read(buckets, writers, reader, all, all, 0);
    assert(all_accepted(buckets, values_of(writers))) by {
        assert forall|i: int| 0 <= i < writers.len() implies accepted(
            buckets,
            #[trigger] values_of(writers)[i],
        ) by {
            assert(values_of(writers)[i] == writers[i].value);
        }
    }
    recorded_is_settled(buckets, values_of(writers), reading);
}

/// A snapshot is a record. The snapshot that a reader makes of the settled
/// readings of the two shards counts, in its count, in its buckets and in its
/// sum, the observations that were committed in either shard when the reader
/// read that shard's count, and no others.
pub proof fn snapshot_is_a_record<B: HistogramBuckets>(
    buckets: B,
    cold_writers: Seq<Writer<B::Value>>,
    cold_reader: Reader,
    cold: Reading<B::Value>,
    hot_writers: Seq<Writer<B::Value>>,
    hot_reader: Reader,
    hot: Reading<B::Value>,
) -> (done: (int, int))
    requires
        writers_in_order(cold_writers),
        writers_in_order(hot_writers),
        reader_in_order(cold_reader),
        reader_in_order(hot_reader),
        writers_accepted(buckets, cold_writers),
        writers_accepted(buckets, hot_writers),
        cold_reader.buckets.len() == bucket_count_for(buckets.spec_values()),
        hot_reader.buckets.len() == bucket_count_for(buckets.spec_values()),
        seen(buckets, cold_writers, cold_reader, cold),
        seen(buckets, hot_writers, hot_reader, hot),
        settled(cold),
        settled(hot),
    ensures
        0 <= done.0 <= cold_writers.len(),
        0 <= done.1 <= hot_writers.len(),
        forall|i: int|
            0 <= i < cold_writers.len() ==> (counted(#[trigger] cold_writers[i], cold_reader) <==> i
                < done.0),
        forall|i: int|
            0 <= i < hot_writers.len() ==> (counted(#[trigger] hot_writers[i], hot_reader) <==> i
                < done.1),
        ({
            let cold_done = values_of(cold_writers.take(done.0));
            let hot_done = values_of(hot_writers.take(done.1));
            let snapshot = snapshot_of(labels_for(buckets.spec_values()), cold, hot);
            &&& snapshot.0 == done.0 + done.1
            &&& total(counts_of(snapshot.2)) == done.0 + done.1
            &&& snapshot.1 == sum_of(cold_done).spec_combine(sum_of(hot_done))
        }),
{
    let cold_k = settled_reading_is_a_record(buckets, cold_writers, cold_reader, cold);
    let hot_k = settled_reading_is_a_record(buckets, hot_writers, hot_reader, hot);
    let cold_done = values_of(cold_writers.take(cold_k));
    let hot_done = values_of(hot_writers.take(hot_k));
    assert(all_accepted(buckets, cold_done)) by {
        assert forall|i: int| 0 <= i < cold_done.len() implies accepted(
            buckets,
            #[trigger] cold_done[i],
        ) by {
            assert(cold_done[i] == cold_writers[i].value);
        }
    }
    assert(all_accepted(buckets, hot_done)) by {
        assert forall|i: int| 0 <= i < hot_done.len() implies accepted(
            buckets,
            #[trigger] hot_done[i],
        ) by {
            assert(hot_done[i] == hot_writers[i].value);
        }
    }
    conservation(buckets, cold_done, hot_done, cold, hot);
    (cold_k, hot_k)
}

} // verus!
