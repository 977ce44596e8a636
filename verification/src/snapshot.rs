//! What a reader gets out of the counters: readings of single shards, and
//! the snapshot that two of them merge into.

use crate::value::HistogramValue;
use vstd::prelude::*;

verus! {

/// The top bit of a shard's count word: set while a reader waits for the
/// shard's writers.
pub const WAITING_FLAG: u64 = 0x8000_0000_0000_0000;

/// The bits of a shard's count word that hold the count itself.
pub const COUNT_MASK: u64 = 0x7fff_ffff_ffff_ffff;

/// The count that a count word holds: the word without the waiting flag.
pub fn count_in(word: u64) -> (count: u64)
    ensures
        word < WAITING_FLAG ==> count == word,
        word >= WAITING_FLAG ==> count == word - WAITING_FLAG,
        count <= COUNT_MASK,
{
    let count = word & !WAITING_FLAG;
    assert(count <= COUNT_MASK && (word < WAITING_FLAG ==> count == word) && (word >= WAITING_FLAG
        ==> count == word - WAITING_FLAG)) by (bit_vector)
        requires
            count == word & !WAITING_FLAG,
    ;
    count
}

/// Whether a count word carries the waiting flag.
pub fn is_waiting(word: u64) -> (waiting: bool)
    ensures
        waiting == (word >= WAITING_FLAG),
{
    let flag = word & WAITING_FLAG;
    assert((flag != 0) == (word >= WAITING_FLAG)) by (bit_vector)
        requires
            flag == word & WAITING_FLAG,
    ;
    flag != 0
}

/// The count that a count word holds.
pub open spec fn count_of_word(word: u64) -> u64 {
    if word >= WAITING_FLAG {
        (word - WAITING_FLAG) as u64
    } else {
        word
    }
}

/// The test by which a reader takes what it read for settled. `word` is the
/// count word that it read first, `expected_count` what the buckets that it
/// read afterwards add up to. Returns the count that the word holds, if the
/// buckets add up to it.
pub fn settled_count(word: u64, expected_count: u64) -> (count: Option<u64>)
    ensures
        count_of_word(word) == expected_count ==> count == Some(expected_count),
        count_of_word(word) != expected_count ==> count is None,
{
    let count = count_in(word);
    if count == expected_count {
        Some(count)
    } else {
        None
    }
}

/// What a reader finds in one shard: the count, the sum, and the count of
/// each bucket.
pub type Reading<V> = (u64, V, Vec<u64>);

/// What a reader returns: the count, the sum, and each bucket's label with
/// the bucket's own count.
pub type Snapshot<V> = (u64, V, Vec<(V, u64)>);

/// The sum of a sequence of bucket counts.
pub open spec fn total(counts: Seq<u64>) -> nat
    decreases counts.len(),
{
    if counts.len() == 0 {
        0
    } else {
        total(counts.drop_last()) + counts.last() as nat
    }
}

/// The sum of the first `upto` counts.
pub open spec fn partial_total(counts: Seq<u64>, upto: usize) -> nat {
    total(counts.take(upto as int))
}

/// A sum of counts as a 64-bit accumulator holds it: the largest value stands
/// for every sum that does not fit.
pub open spec fn saturated(n: nat) -> u64 {
    if n > u64::MAX {
        u64::MAX
    } else {
        n as u64
    }
}

/// Whether a reading is settled: the bucket counts add up to the count, and
/// the count fits the bits that hold it. A shard reads so when none of its
/// writers is half-way through.
pub open spec fn settled<V>(reading: Reading<V>) -> bool {
    &&& reading.0 == total(reading.2@)
    &&& reading.0 <= COUNT_MASK
}

/// The counts of a sequence of labelled buckets.
pub open spec fn counts_of<V>(pairs: Seq<(V, u64)>) -> Seq<u64> {
    Seq::new(pairs.len(), |i: int| pairs[i].1)
}

/// The labels of a sequence of labelled buckets.
pub open spec fn labels_of<V>(pairs: Seq<(V, u64)>) -> Seq<V> {
    Seq::new(pairs.len(), |i: int| pairs[i].0)
}

/// The number of buckets that a merge yields: as many as the shortest of its
/// three inputs has.
pub open spec fn merged_len(labels: int, cold: int, hot: int) -> int {
    if labels <= cold && labels <= hot {
        labels
    } else if cold <= hot {
        cold
    } else {
        hot
    }
}

/// Two shards' bucket counts, added bucket by bucket and labelled.
pub open spec fn merged_buckets<V>(labels: Seq<V>, cold: Seq<u64>, hot: Seq<u64>) -> Seq<(V, u64)> {
    Seq::new(
        merged_len(labels.len() as int, cold.len() as int, hot.len() as int) as nat,
        |i: int| (labels[i], (cold[i] + hot[i]) as u64),
    )
}

/// The buckets that a reader is shown: all of them, but for the sink of
/// values that are not numbers while it is empty. The sink is known by its
/// label and stands last.
pub open spec fn shown<V: HistogramValue>(pairs: Seq<(V, u64)>) -> Seq<(V, u64)> {
    if V::HAS_NAN && pairs.len() > 0 && pairs.last().0.spec_is_nan() && pairs.last().1 == 0 {
        pairs.drop_last()
    } else {
        pairs
    }
}

/// The snapshot that the readings of the two shards make: what `merge` makes
/// of them, as `show` shows it.
pub open spec fn snapshot_of<V: HistogramValue>(
    labels: Seq<V>,
    cold: Reading<V>,
    hot: Reading<V>,
) -> (int, V, Seq<(V, u64)>) {
    (cold.0 + hot.0, cold.1.spec_combine(hot.1), shown(merged_buckets(labels, cold.2@, hot.2@)))
}

/// Whether `snapshot` is the snapshot that the two readings make.
pub open spec fn is_snapshot_of<V: HistogramValue>(
    snapshot: Snapshot<V>,
    labels: Seq<V>,
    cold: Reading<V>,
    hot: Reading<V>,
) -> bool {
    snapshot_of(labels, cold, hot) == (snapshot.0 as int, snapshot.1, snapshot.2@)
}

/// Whether `snapshot` is made of two settled readings, each with a count for
/// every label.
pub open spec fn made_of_readings<V: HistogramValue>(
    labels: Seq<V>,
    snapshot: Snapshot<V>,
) -> bool {
    exists|cold: Reading<V>, hot: Reading<V>|
        {
            &&& settled(cold)
            &&& settled(hot)
            &&& cold.2@.len() == labels.len()
            &&& hot.2@.len() == labels.len()
            &&& #[trigger] is_snapshot_of(snapshot, labels, cold, hot)
        }
}

/// What the buckets of a snapshot look like: they carry the labels, in order;
/// only the sink of values that are not numbers may be missing at the end,
/// and where it is there, it is not empty.
pub open spec fn collected<V: HistogramValue>(labels: Seq<V>, buckets: Seq<(V, u64)>) -> bool {
    if V::HAS_NAN && buckets.len() < labels.len() {
        labels_of(buckets) == labels.drop_last()
    } else {
        &&& labels_of(buckets) == labels
        &&& V::HAS_NAN ==> buckets.last().1 > 0
    }
}

/// Whether two shards' readings can be added without overflow.
pub open spec fn mergeable(cold_count: u64, cold: Seq<u64>, hot_count: u64, hot: Seq<u64>) -> bool {
    &&& cold_count + hot_count <= u64::MAX
    &&& forall|i: int|
        0 <= i < cold.len() && i < hot.len() ==> #[trigger] cold[i] + hot[i] <= u64::MAX
}

/// Writing the count that a prefix gains next adds it to the prefix's sum.
pub proof fn lemma_partial_total_set(counts: Seq<u64>, upto: usize, value: u64)
    requires
        upto < counts.len(),
        upto < usize::MAX,
    ensures
        partial_total(counts.update(upto as int, value), (upto + 1) as usize) == partial_total(
            counts,
            upto,
        ) + value,
{
    let written = counts.update(upto as int, value);
    assert(written.take(upto + 1).drop_last() =~= counts.take(upto as int));
}

/// The prefix that holds every count has the total as its sum.
pub proof fn lemma_partial_total_all(counts: Seq<u64>, upto: usize)
    requires
        upto == counts.len(),
    ensures
        partial_total(counts, upto) == total(counts),
{
    assert(counts.take(upto as int) =~= counts);
}

/// No count exceeds the total.
pub proof fn lemma_total_bounds(counts: Seq<u64>, i: int)
    requires
        0 <= i < counts.len(),
    ensures
        counts[i] <= total(counts),
    decreases counts.len(),
{
    if i < counts.len() - 1 {
        lemma_total_bounds(counts.drop_last(), i);
    }
}

/// Adding two sequences of counts bucket by bucket adds their totals.
pub proof fn lemma_total_merged<V>(labels: Seq<V>, cold: Seq<u64>, hot: Seq<u64>)
    requires
        labels.len() == cold.len(),
        cold.len() == hot.len(),
        forall|i: int| 0 <= i < cold.len() ==> #[trigger] cold[i] + hot[i] <= u64::MAX,
    ensures
        total(counts_of(merged_buckets(labels, cold, hot))) == total(cold) + total(hot),
    decreases cold.len(),
{
    let all = counts_of(merged_buckets(labels, cold, hot));
    if cold.len() > 0 {
        let rest = counts_of(merged_buckets(labels.drop_last(), cold.drop_last(), hot.drop_last()));
        lemma_total_merged(labels.drop_last(), cold.drop_last(), hot.drop_last());
        assert(all.drop_last() =~= rest);
        assert(cold[cold.len() - 1] + hot[cold.len() - 1] <= u64::MAX);
    }
}

/// Two settled readings of equal length can be added, and the sum is settled
/// again: its buckets add up to its count, and they carry the labels.
pub proof fn lemma_readings_merge<V>(
    labels: Seq<V>,
    cold: Reading<V>,
    hot: Reading<V>,
)
    requires
        settled(cold),
        settled(hot),
        cold.2@.len() == labels.len(),
        hot.2@.len() == labels.len(),
    ensures
        mergeable(cold.0, cold.2@, hot.0, hot.2@),
        total(counts_of(merged_buckets(labels, cold.2@, hot.2@))) == cold.0 + hot.0,
        labels_of(merged_buckets(labels, cold.2@, hot.2@)) == labels,
{
    assert forall|i: int| 0 <= i < cold.2@.len() implies #[trigger] cold.2@[i] + hot.2@[i]
        <= u64::MAX by {
        lemma_total_bounds(cold.2@, i);
        lemma_total_bounds(hot.2@, i);
    }
    lemma_total_merged(labels, cold.2@, hot.2@);
    assert(labels_of(merged_buckets(labels, cold.2@, hot.2@)) =~= labels);
}

/// Hiding an empty sink leaves the total as it is.
pub proof fn lemma_total_shown<V: HistogramValue>(pairs: Seq<(V, u64)>)
    ensures
        total(counts_of(shown(pairs))) == total(counts_of(pairs)),
{
    if shown(pairs) != pairs {
        assert(counts_of(pairs).drop_last() =~= counts_of(pairs.drop_last()));
    }
}

/// What a reader is shown of labelled buckets is a reading's buckets.
pub proof fn lemma_collected<V: HistogramValue>(labels: Seq<V>, pairs: Seq<(V, u64)>)
    requires
        labels_of(pairs) == labels,
        labels.len() > 0,
        V::HAS_NAN ==> labels.last().spec_is_nan(),
    ensures
        collected(labels, shown(pairs)),
{
    assert(pairs.len() == labels.len());
    assert(pairs.last().0 == labels_of(pairs)[pairs.len() - 1]);
    if shown(pairs) != pairs {
        assert(labels_of(pairs.drop_last()) =~= labels.drop_last());
    }
}

/// Takes an empty sink of values that are not numbers off the end of the
/// buckets.
pub fn show<V: HistogramValue>(pairs: Vec<(V, u64)>) -> (visible: Vec<(V, u64)>)
    ensures
        visible@ == shown(pairs@),
{
    let mut pairs = pairs;
    let n = pairs.len();
    if V::HAS_NAN && n > 0 && pairs[n - 1].0.is_nan() && pairs[n - 1].1 == 0 {
        pairs.pop();
    }
    pairs
}

/// Adds two shards' readings: the counts, the sums as the value type adds
/// them, and the bucket counts one by one, each with its label.
pub fn merge<V: HistogramValue>(
    labels: &Vec<V>,
    cold: Reading<V>,
    hot: Reading<V>,
) -> (merged: Snapshot<V>)
    requires
        mergeable(cold.0, cold.2@, hot.0, hot.2@),
    ensures
        merged.0 == cold.0 + hot.0,
        merged.1 == cold.1.spec_combine(hot.1),
        merged.2@ == merged_buckets(labels@, cold.2@, hot.2@),
{
    let (count_cold, sum_cold, buckets_cold) = cold;
    let (count_hot, sum_hot, buckets_hot) = hot;
    let mut n: usize = labels.len();
    if buckets_cold.len() < n {
        n = buckets_cold.len();
    }
    if buckets_hot.len() < n {
        n = buckets_hot.len();
    }
    let mut buckets: Vec<(V, u64)> = Vec::with_capacity(n);
    let mut i: usize = 0;
    while i < n
        invariant
            i <= n,
            n == merged_len(
                labels.len() as int,
                buckets_cold.len() as int,
                buckets_hot.len() as int,
            ),
            mergeable(count_cold, buckets_cold@, count_hot, buckets_hot@),
            buckets.len() == i,
            forall|j: int|
                0 <= j < i ==> buckets@[j] == merged_buckets(
                    labels@,
                    buckets_cold@,
                    buckets_hot@,
                )[j],
        decreases n - i,
    {
        assert(buckets_cold@[i as int] + buckets_hot@[i as int] <= u64::MAX);
        buckets.push((labels[i], buckets_cold[i] + buckets_hot[i]));
        i = i + 1;
    }
    assert(buckets@ =~= merged_buckets(labels@, buckets_cold@, buckets_hot@));
    (count_cold + count_hot, sum_cold.combine(sum_hot), buckets)
}

} // verus!
