//! The counters of one shard, laid out by cache line.
//!
//! The counters stand in one row: the count, the sum, then one counter for
//! each bucket. The row is cut into groups of `COUNTERS_PER_CACHE_LINE`, each
//! group aligned to a cache line, so that the count, the sum and the first
//! buckets share a line.

use crate::outside::{cells_of, line_cells};
use crossbeam_utils::CachePadded;
use std::sync::atomic::AtomicU64;
use vstd::prelude::*;

verus! {

/// The number of 64-bit counters in one group: what a line of 64 bytes holds.
pub const COUNTERS_PER_CACHE_LINE: usize = 8;

/// The number of counters that stand before the first bucket: the count and
/// the sum.
pub const HEADER_COUNTERS: usize = 2;

/// The largest number of buckets that a shard can be asked to hold.
pub const MAX_BUCKET_COUNT: usize = usize::MAX - HEADER_COUNTERS - COUNTERS_PER_CACHE_LINE;

/// The number of groups that hold the header and `bucket_count` buckets.
pub open spec fn lines_for(bucket_count: int) -> int {
    let counters = bucket_count + HEADER_COUNTERS;
    (counters + COUNTERS_PER_CACHE_LINE - 1) / (COUNTERS_PER_CACHE_LINE as int)
}

/// The place of a bucket's counter in the row.
pub open spec fn slot_of(bucket_index: int) -> int {
    bucket_index + HEADER_COUNTERS
}

/// The group that a place in the row falls into.
pub open spec fn line_of(slot: int) -> int {
    slot / (COUNTERS_PER_CACHE_LINE as int)
}

/// The position of a place in the row within its group.
pub open spec fn offset_of(slot: int) -> int {
    slot % (COUNTERS_PER_CACHE_LINE as int)
}

/// The counters of one shard.
#[derive(Debug)]
pub(crate) struct Counters {
    lines: Vec<CachePadded<[AtomicU64; COUNTERS_PER_CACHE_LINE]>>,
}

/// The number of groups needed for `bucket_count` buckets.
pub fn cache_lines(bucket_count: usize) -> (lines: usize)
    requires
        bucket_count + HEADER_COUNTERS <= usize::MAX,
    ensures
        lines == lines_for(bucket_count as int),
        lines * COUNTERS_PER_CACHE_LINE >= bucket_count + HEADER_COUNTERS,
        lines * COUNTERS_PER_CACHE_LINE < bucket_count + HEADER_COUNTERS + COUNTERS_PER_CACHE_LINE,
{
    (bucket_count + HEADER_COUNTERS - 1) / COUNTERS_PER_CACHE_LINE + 1
}

/// The group and the position in it of a bucket's counter.
pub fn position(bucket_index: usize) -> (place: (usize, usize))
    requires
        bucket_index + HEADER_COUNTERS <= usize::MAX,
    ensures
        place.0 == line_of(slot_of(bucket_index as int)),
        place.1 == offset_of(slot_of(bucket_index as int)),
        place.1 < COUNTERS_PER_CACHE_LINE,
        place.0 * COUNTERS_PER_CACHE_LINE + place.1 == bucket_index + HEADER_COUNTERS,
{
    let slot = bucket_index + HEADER_COUNTERS;
    (slot / COUNTERS_PER_CACHE_LINE, slot % COUNTERS_PER_CACHE_LINE)
}

/// Two buckets never share a counter, and no bucket's counter is the count or
/// the sum.
pub proof fn positions_are_distinct(a: int, b: int)
    requires
        0 <= a,
        0 <= b,
    ensures
        line_of(slot_of(a)) == line_of(slot_of(b)) && offset_of(slot_of(a)) == offset_of(slot_of(b))
            ==> a == b,
        !(line_of(slot_of(a)) == 0 && offset_of(slot_of(a)) < HEADER_COUNTERS),
{
}

impl Counters {
    #[verifier::type_invariant]
    spec fn fits(&self) -> bool {
        self.lines@.len() * COUNTERS_PER_CACHE_LINE <= usize::MAX
    }

    /// The number of groups of counters.
    pub(crate) closed spec fn lines(&self) -> nat {
        self.lines@.len()
    }

    /// The number of buckets that have a counter.
    pub(crate) open spec fn capacity(&self) -> int {
        self.lines() * COUNTERS_PER_CACHE_LINE - HEADER_COUNTERS
    }

    /// Allocates the counters for `bucket_count` buckets, all at zero.
    pub(crate) fn new(bucket_count: usize) -> (counters: Self)
        requires
            bucket_count <= MAX_BUCKET_COUNT,
        ensures
            counters.lines() == lines_for(bucket_count as int),
            counters.capacity() >= bucket_count,
    {
        let cache_lines = cache_lines(bucket_count);
        let mut lines: Vec<CachePadded<[AtomicU64; COUNTERS_PER_CACHE_LINE]>> = Vec::with_capacity(
            cache_lines,
        );
        let mut i: usize = 0;
        while i < cache_lines
            invariant
                i <= cache_lines,
                lines.len() == i,
            decreases cache_lines - i,
        {
            lines.push(
                CachePadded::new(
                    [
                        AtomicU64::new(0),
                        AtomicU64::new(0),
                        AtomicU64::new(0),
                        AtomicU64::new(0),
                        AtomicU64::new(0),
                        AtomicU64::new(0),
                        AtomicU64::new(0),
                        AtomicU64::new(0),
                    ],
                ),
            );
            i = i + 1;
        }
        Counters { lines }
    }

    /// The counter of the observations that the shard has accepted: the
    /// first of the row.
    pub(crate) fn count(&self) -> (counter: &AtomicU64)
        requires
            self.lines() > 0,
        ensures
            *counter == self.cell(0),
    {
        &cells_of(&self.lines[0])[0]
    }

    /// The counter that holds the running sum: the second of the row.
    pub(crate) fn sum(&self) -> (counter: &AtomicU64)
        requires
            self.lines() > 0,
        ensures
            *counter == self.cell(1),
    {
        &cells_of(&self.lines[0])[1]
    }

    /// The counter of one bucket: the one at the bucket's place in the row.
    pub(crate) fn bucket(&self, bucket_index: usize) -> (counter: &AtomicU64)
        requires
            bucket_index < self.capacity(),
        ensures
            *counter == self.cell(slot_of(bucket_index as int)),
    {
        proof {
            use_type_invariant(self);
        }
        let (line, offset) = position(bucket_index);
        &cells_of(&self.lines[line])[offset]
    }

    /// The counter at a place in the row: in the group that the place falls
    /// into, at the place's position in the group.
    pub(crate) closed spec fn cell(&self, slot: int) -> AtomicU64 {
        line_cells(self.lines@[line_of(slot)])[offset_of(slot)]
    }

    /// Gives the counters back. No bucket has a counter afterwards.
    pub(crate) fn drop(&mut self, bucket_count: usize)
        ensures
            final(self).lines() == 0,
    {
        self.lines = Vec::new();
    }
}

} // verus!
