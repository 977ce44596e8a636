//! A histogram metric for concurrent writers and a single reader.
//!
//! Observations are counted in one of two shards of atomic counters. A reader
//! redirects the writers to the other shard, waits until the shard it took
//! over is quiescent, and merges what the two shards hold.

pub mod buckets;
pub mod counters;
pub mod histogram;
pub mod laws;
pub mod outside;
pub mod protocol;
pub mod shard;
pub mod snapshot;
pub mod value;

pub use buckets::{HistogramBuckets, TrustedHistogramBuckets};
pub use histogram::{observe_u64, Histogram};
pub use value::HistogramValue;
