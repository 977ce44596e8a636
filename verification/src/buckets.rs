//! The boundaries of a histogram's buckets.

use crate::value::HistogramValue;
use std::sync::Arc;
use vstd::prelude::*;

verus! {

/// An ascending row of upper bounds. A value belongs to the first bucket
/// whose bound it does not exceed.
///
/// The two `spec` functions say what the two executable ones return. An
/// implementation outside verified code leaves them as they are.
pub trait HistogramBuckets: Sized {
    type Value: HistogramValue;

    /// The upper bounds, in order.
    open spec fn spec_values(&self) -> Seq<Self::Value> {
        arbitrary()
    }

    /// The bucket of a value, if one of the bounds holds it.
    open spec fn spec_bucket_index(&self, value: &Self::Value) -> Option<usize> {
        arbitrary()
    }

    fn bucket_index(&self, value: &Self::Value) -> (index: Option<usize>)
        ensures
            index == self.spec_bucket_index(value),
    ;

    fn values(&self) -> (bounds: Vec<Self::Value>)
        ensures
            bounds@ == self.spec_values(),
    ;
}

/// Buckets whose `bucket_index` is known never to name a bucket that has no
/// bound. A histogram over such buckets takes any value without a check.
///
/// An implementation outside verified code gives the law an empty body: it
/// answers for it itself.
pub trait TrustedHistogramBuckets: HistogramBuckets {
    proof fn bucket_index_in_bounds(&self, value: &Self::Value)
        ensures
            self.spec_bucket_index(value) matches Some(i) ==> i < self.spec_values().len(),
    ;
}

/// Whether `i` is the first of the bounds that `value` does not exceed.
pub open spec fn is_first_at_least<V: HistogramValue>(bounds: Seq<V>, value: V, i: int) -> bool {
    &&& 0 <= i < bounds.len()
    &&& value.spec_within(&bounds[i])
    &&& forall|j: int| 0 <= j < i ==> !value.spec_within(&#[trigger] bounds[j])
}

/// The first bound that `value` does not exceed, if there is one.
pub open spec fn first_at_least<V: HistogramValue>(bounds: Seq<V>, value: V) -> Option<usize> {
    if exists|i: int| 0 <= i < bounds.len() && value.spec_within(&bounds[i]) {
        Some((choose|i: int| is_first_at_least(bounds, value, i)) as usize)
    } else {
        None
    }
}

/// What `first_at_least` picks: the least index whose bound holds the value.
pub proof fn lemma_first_at_least<V: HistogramValue>(bounds: Seq<V>, value: V)
    requires
        bounds.len() <= usize::MAX,
    ensures
        first_at_least(bounds, value) matches Some(i) ==> is_first_at_least(
            bounds,
            value,
            i as int,
        ),
        first_at_least(bounds, value) is None ==> forall|j: int|
            0 <= j < bounds.len() ==> !value.spec_within(&#[trigger] bounds[j]),
{
    if exists|i: int| 0 <= i < bounds.len() && value.spec_within(&bounds[i]) {
        lemma_least_exists(bounds, value, bounds.len() as int);
    }
}

/// Among the first `n` bounds, if one holds the value, a least one does.
proof fn lemma_least_exists<V: HistogramValue>(bounds: Seq<V>, value: V, n: int)
    requires
        0 <= n <= bounds.len(),
        exists|i: int| 0 <= i < n && value.spec_within(&bounds[i]),
    ensures
        exists|i: int| i < n && is_first_at_least(bounds, value, i),
    decreases n,
{
    if exists|i: int| 0 <= i < n - 1 && value.spec_within(&bounds[i]) {
        lemma_least_exists(bounds, value, n - 1);
    } else {
        assert(is_first_at_least(bounds, value, n - 1));
    }
}

/// The first of the bounds is unique.
pub proof fn lemma_first_is_unique<V: HistogramValue>(bounds: Seq<V>, value: V, i: int, k: int)
    requires
        is_first_at_least(bounds, value, i),
        is_first_at_least(bounds, value, k),
    ensures
        i == k,
{
}

/// Finds the bucket of a value by scanning the bounds from the left.
pub fn position_of<V: HistogramValue>(bounds: &[V], value: &V) -> (index: Option<usize>)
    ensures
        index == first_at_least(bounds@, *value),
        index matches Some(i) ==> is_first_at_least(bounds@, *value, i as int),
        index is None ==> forall|j: int|
            0 <= j < bounds@.len() ==> !value.spec_within(&#[trigger] bounds@[j]),
{
    let n = bounds.len();
    proof {
        lemma_first_at_least(bounds@, *value);
    }
    let mut i: usize = 0;
    while i < n
        invariant
            n == bounds@.len(),
            i <= n,
            forall|j: int| 0 <= j < i ==> !value.spec_within(&#[trigger] bounds@[j]),
        decreases n - i,
    {
        if value.within(&bounds[i]) {
            proof {
                assert(is_first_at_least(bounds@, *value, i as int));
                if let Some(k) = first_at_least(bounds@, *value) {
                    lemma_first_is_unique(bounds@, *value, i as int, k as int);
                }
            }
            return Some(i);
        }
        i = i + 1;
    }
    None
}

/// Copies a row of bounds.
pub fn bounds_of<V: HistogramValue>(bounds: &[V]) -> (copy: Vec<V>)
    ensures
        copy@ == bounds@,
{
    let n = bounds.len();
    let mut copy: Vec<V> = Vec::with_capacity(n);
    let mut i: usize = 0;
    while i < n
        invariant
            n == bounds@.len(),
            i <= n,
            copy@ == bounds@.take(i as int),
        decreases n - i,
    {
        copy.push(bounds[i]);
        assert(bounds@.take(i + 1) =~= bounds@.take(i as int).push(bounds@[i as int]));
        i = i + 1;
    }
    assert(bounds@.take(i as int) =~= bounds@);
    copy
}

impl<V: HistogramValue> HistogramBuckets for Vec<V> {
    type Value = V;

    open spec fn spec_values(&self) -> Seq<V> {
        self@
    }

    open spec fn spec_bucket_index(&self, value: &V) -> Option<usize> {
        first_at_least(self@, *value)
    }

    fn bucket_index(&self, value: &V) -> (index: Option<usize>) {
        position_of(self.as_slice(), value)
    }

    fn values(&self) -> (bounds: Vec<V>) {
        bounds_of(self.as_slice())
    }
}

impl<V: HistogramValue> TrustedHistogramBuckets for Vec<V> {
    proof fn bucket_index_in_bounds(&self, value: &V) {
        assert(self@.len() == self.len());
        lemma_first_at_least(self@, *value);
    }
}

impl<'a, V: HistogramValue> HistogramBuckets for &'a [V] {
    type Value = V;

    open spec fn spec_values(&self) -> Seq<V> {
        self@
    }

    open spec fn spec_bucket_index(&self, value: &V) -> Option<usize> {
        first_at_least(self@, *value)
    }

    fn bucket_index(&self, value: &V) -> (index: Option<usize>) {
        position_of(*self, value)
    }

    fn values(&self) -> (bounds: Vec<V>) {
        bounds_of(*self)
    }
}

impl<'a, V: HistogramValue> TrustedHistogramBuckets for &'a [V] {
    proof fn bucket_index_in_bounds(&self, value: &V) {
        assert(self@.len() == self.len());
        lemma_first_at_least(self@, *value);
    }
}

impl<V: HistogramValue, const N: usize> HistogramBuckets for [V; N] {
    type Value = V;

    open spec fn spec_values(&self) -> Seq<V> {
        self@
    }

    open spec fn spec_bucket_index(&self, value: &V) -> Option<usize> {
        first_at_least(self@, *value)
    }

    fn bucket_index(&self, value: &V) -> (index: Option<usize>) {
        position_of(self.as_slice(), value)
    }

    fn values(&self) -> (bounds: Vec<V>) {
        bounds_of(self.as_slice())
    }
}

impl<V: HistogramValue, const N: usize> TrustedHistogramBuckets for [V; N] {
    proof fn bucket_index_in_bounds(&self, value: &V) {
        lemma_first_at_least(self@, *value);
    }
}

impl<'a, V: HistogramValue, const N: usize> HistogramBuckets for &'a [V; N] {
    type Value = V;

    open spec fn spec_values(&self) -> Seq<V> {
        self@
    }

    open spec fn spec_bucket_index(&self, value: &V) -> Option<usize> {
        first_at_least(self@, *value)
    }

    fn bucket_index(&self, value: &V) -> (index: Option<usize>) {
        position_of(self.as_slice(), value)
    }

    fn values(&self) -> (bounds: Vec<V>) {
        bounds_of(self.as_slice())
    }
}

impl<'a, V: HistogramValue, const N: usize> TrustedHistogramBuckets for &'a [V; N] {
    proof fn bucket_index_in_bounds(&self, value: &V) {
        lemma_first_at_least(self@, *value);
    }
}

impl<V: HistogramValue> HistogramBuckets for Box<[V]> {
    type Value = V;

    open spec fn spec_values(&self) -> Seq<V> {
        self@
    }

    open spec fn spec_bucket_index(&self, value: &V) -> Option<usize> {
        first_at_least(self@, *value)
    }

    fn bucket_index(&self, value: &V) -> (index: Option<usize>) {
        position_of(&**self, value)
    }

    fn values(&self) -> (bounds: Vec<V>) {
        bounds_of(&**self)
    }
}

impl<V: HistogramValue> TrustedHistogramBuckets for Box<[V]> {
    proof fn bucket_index_in_bounds(&self, value: &V) {
        assert(self@.len() == self.len());
        lemma_first_at_least(self@, *value);
    }
}

impl<V: HistogramValue> HistogramBuckets for Arc<[V]> {
    type Value = V;

    open spec fn spec_values(&self) -> Seq<V> {
        self@
    }

    open spec fn spec_bucket_index(&self, value: &V) -> Option<usize> {
        first_at_least(self@, *value)
    }

    fn bucket_index(&self, value: &V) -> (index: Option<usize>) {
        position_of(&**self, value)
    }

    fn values(&self) -> (bounds: Vec<V>) {
        bounds_of(&**self)
    }
}

impl<V: HistogramValue> TrustedHistogramBuckets for Arc<[V]> {
    proof fn bucket_index_in_bounds(&self, value: &V) {
        assert(self@.len() == self.len());
        lemma_first_at_least(self@, *value);
    }
}

} // verus!
