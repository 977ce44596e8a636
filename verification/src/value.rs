//! The values that a histogram observes.

use std::sync::atomic::AtomicU64;
use std::sync::atomic::Ordering;
use vstd::prelude::*;

verus! {

/// A type of observation. A running sum of such values lives in a 64-bit
/// atomic word, as a bit pattern.
///
/// The `spec` functions say what the executable ones return, and the two
/// proof functions are laws that every value type obeys. An implementation
/// outside verified code leaves the `spec` functions as they are and gives the
/// laws empty bodies: it answers for them itself.
pub trait HistogramValue: Copy {
    /// Whether the type has values that are not numbers. Such values are
    /// counted in a sink of their own, after the bucket above every boundary.
    const HAS_NAN: bool;

    /// Whether the value is not a number.
    open spec fn spec_is_nan(&self) -> bool {
        arbitrary()
    }

    /// Whether the value does not exceed `bound`.
    open spec fn spec_within(&self, bound: &Self) -> bool {
        arbitrary()
    }

    /// The bit pattern that stands for the value.
    open spec fn spec_to_bits(self) -> u64 {
        arbitrary()
    }

    /// The value that a bit pattern stands for.
    open spec fn spec_from_bits(bits: u64) -> Self {
        arbitrary()
    }

    /// The sum of two values, as the type adds them.
    open spec fn spec_combine(self, other: Self) -> Self {
        arbitrary()
    }

    /// The label of the bucket above every boundary.
    open spec fn spec_infinity() -> Self {
        arbitrary()
    }

    /// The label of the sink for values that are not numbers, where the type
    /// has any.
    open spec fn spec_nan() -> Self {
        arbitrary()
    }

    fn is_nan(&self) -> (nan: bool)
        ensures
            nan == self.spec_is_nan(),
    ;

    fn within(&self, bound: &Self) -> (holds: bool)
        ensures
            holds == self.spec_within(bound),
    ;

    /// Adds `value` to the sum held in `counter`, in one atomic step with the
    /// ordering that the caller gives. The counter's contents are invisible
    /// to proofs, so nothing is stated of them.
    fn atomic_add(counter: &AtomicU64, value: Self, ordering: Ordering);

    fn from_bits(bits: u64) -> (value: Self)
        ensures
            value == Self::spec_from_bits(bits),
    ;

    fn to_bits(self) -> (bits: u64)
        ensures
            bits == self.spec_to_bits(),
    ;

    fn combine(self, other: Self) -> (sum: Self)
        ensures
            sum == self.spec_combine(other),
    ;

    fn infinity() -> (label: Self)
        ensures
            label == Self::spec_infinity(),
    ;

    /// The label of the sink for values that are not numbers: one of those
    /// values, where the type has any.
    fn nan() -> (label: Option<Self>)
        ensures
            Self::HAS_NAN ==> label == Some(Self::spec_nan()) && Self::spec_nan().spec_is_nan(),
            !Self::HAS_NAN ==> label is None,
    ;

    /// A number survives the trip through its bit pattern.
    proof fn bits_round_trip(x: Self)
        requires
            !x.spec_is_nan(),
        ensures
            Self::spec_from_bits(x.spec_to_bits()) == x,
    ;

    /// The order of the two operands of a sum does not matter: the two sums
    /// are the same value, or neither is a number.
    proof fn combine_commutes(a: Self, b: Self)
        ensures
            a.spec_combine(b) == b.spec_combine(a) || (a.spec_combine(b).spec_is_nan()
                && b.spec_combine(a).spec_is_nan()),
    ;
}

/// Whether two values are the same, or both are not numbers. Which of the
/// values that are not numbers a sum gives is not fixed.
pub open spec fn same_value<V: HistogramValue>(a: V, b: V) -> bool {
    a == b || (a.spec_is_nan() && b.spec_is_nan())
}

/// Integers are all numbers: a histogram of integers has no sink.
pub proof fn integers_have_no_nan()
    ensures
        !<u64 as HistogramValue>::HAS_NAN,
{
}

impl HistogramValue for u64 {
    const HAS_NAN: bool = false;

    open spec fn spec_is_nan(&self) -> bool {
        false
    }

    open spec fn spec_within(&self, bound: &u64) -> bool {
        *self <= *bound
    }

    open spec fn spec_to_bits(self) -> u64 {
        self
    }

    open spec fn spec_from_bits(bits: u64) -> u64 {
        bits
    }

    /// Sums of integers wrap around, as the atomic addition does.
    open spec fn spec_combine(self, other: u64) -> u64 {
        self.wrapping_add(other)
    }

    open spec fn spec_infinity() -> u64 {
        u64::MAX
    }

    fn is_nan(&self) -> (nan: bool) {
        false
    }

    fn within(&self, bound: &u64) -> (holds: bool) {
        *self <= *bound
    }

    fn atomic_add(counter: &AtomicU64, value: u64, ordering: Ordering) {
        counter.fetch_add(value, ordering);
    }

    fn from_bits(bits: u64) -> (value: u64) {
        bits
    }

    fn to_bits(self) -> (bits: u64) {
        self
    }

    fn combine(self, other: u64) -> (sum: u64) {
        self.wrapping_add(other)
    }

    fn infinity() -> (label: u64) {
        u64::MAX
    }

    fn nan() -> (label: Option<u64>) {
        None
    }

    proof fn bits_round_trip(x: u64) {
    }

    proof fn combine_commutes(a: u64, b: u64) {
    }
}

} // verus!
