use histogram::snapshot::{merge, show};
use histogram::{Histogram, HistogramBuckets, HistogramValue};
use std::sync::atomic::{AtomicU64, Ordering};

/// A floating-point observation.
#[derive(Clone, Copy, Debug, PartialEq, PartialOrd)]
struct Float(f64);

impl HistogramValue for Float {
    const HAS_NAN: bool = true;

    fn is_nan(&self) -> bool {
        self.0.is_nan()
    }

    fn within(&self, bound: &Self) -> bool {
        self.0 <= bound.0
    }

    fn atomic_add(counter: &AtomicU64, value: Self, ordering: Ordering) {
        let mut current = counter.load(Ordering::Relaxed);
        loop {
            let next = (f64::from_bits(current) + value.0).to_bits();
            match counter.compare_exchange_weak(current, next, ordering, Ordering::Relaxed) {
                Ok(_) => break,
                Err(seen) => current = seen,
            }
        }
    }

    fn from_bits(bits: u64) -> Self {
        Float(f64::from_bits(bits))
    }

    fn to_bits(self) -> u64 {
        self.0.to_bits()
    }

    fn combine(self, other: Self) -> Self {
        Float(self.0 + other.0)
    }

    fn infinity() -> Self {
        Float(f64::INFINITY)
    }

    fn nan() -> Option<Self> {
        Some(Float(f64::NAN))
    }

    fn bits_round_trip(_x: Self) {}

    fn combine_commutes(_a: Self, _b: Self) {}
}

fn floats(bounds: &[f64]) -> Vec<Float> {
    bounds.iter().map(|b| Float(*b)).collect()
}

fn plain(buckets: Vec<(Float, u64)>) -> Vec<(f64, u64)> {
    buckets.into_iter().map(|(label, count)| (label.0, count)).collect()
}

#[test]
fn basic_float() {
    let histogram = Histogram::new(floats(&[1.0]));
    histogram.observe(Float(0.5));
    histogram.observe(Float(1.0));
    histogram.observe(Float(2.0));
    histogram.observe(Float(f64::INFINITY));
    histogram.observe(Float(f64::NAN));
    let (count, sum, buckets) = histogram.collect();
    assert_eq!(count, 5);
    assert!(sum.0.is_nan());
    let buckets = plain(buckets);
    assert_eq!(buckets.len(), 3);
    assert_eq!(buckets[0], (1.0, 2));
    assert_eq!(buckets[1], (f64::INFINITY, 2));
    assert!(buckets[2].0.is_nan());
    assert_eq!(buckets[2].1, 1);
}

#[test]
fn observe_inf() {
    let histogram = Histogram::new(floats(&[1.0]));
    histogram.observe(Float(f64::INFINITY));
    histogram.observe(Float(1.0));
    let (count, sum, buckets) = histogram.collect();
    assert_eq!(count, 2);
    assert_eq!(sum.0, f64::INFINITY);
    assert_eq!(plain(buckets), vec![(1.0, 1), (f64::INFINITY, 1)]);
}

#[test]
fn empty_float() {
    let histogram = Histogram::new(floats(&[1.0]));
    let (count, sum, buckets) = histogram.collect();
    assert_eq!(count, 0);
    assert_eq!(sum.0, 0.0);
    assert!(sum.0.is_sign_positive());
    assert_eq!(plain(buckets), vec![(1.0, 0), (f64::INFINITY, 0)]);
}

#[test]
fn observe_nan() {
    let histogram = Histogram::new(floats(&[1.0]));
    assert_eq!(histogram.bucket_count(), 3);
    assert_eq!(histogram.bucket_of(&Float(f64::NAN)), 2);
    assert_eq!(histogram.bucket_of(&Float(2.0)), 1);
    histogram.observe(Float(f64::NAN));
    let (count, sum, buckets) = histogram.collect();
    assert_eq!(count, 1);
    assert!(sum.0.is_nan());
    let buckets = plain(buckets);
    assert_eq!(buckets.len(), 3);
    assert_eq!(buckets[0], (1.0, 0));
    assert_eq!(buckets[1], (f64::INFINITY, 0));
    assert!(buckets[2].0.is_nan());
    assert_eq!(buckets[2].1, 1);
    assert_eq!(count, buckets.iter().map(|b| b.1).sum::<u64>());
}

#[test]
fn minus_infinity_goes_to_the_lowest_bucket() {
    let histogram = Histogram::new(floats(&[1.0, 2.0]));
    histogram.observe(Float(f64::NEG_INFINITY));
    let (count, sum, buckets) = histogram.collect();
    assert_eq!(count, 1);
    assert_eq!(sum.0, f64::NEG_INFINITY);
    assert_eq!(plain(buckets), vec![(1.0, 1), (2.0, 0), (f64::INFINITY, 0)]);
}

#[test]
fn float_sums_across_the_shards() {
    let histogram = Histogram::new(floats(&[1.0, 10.0]));
    histogram.observe(Float(0.5));
    histogram.observe(Float(0.25));
    let first = histogram.collect();
    assert_eq!(first.0, 2);
    assert_eq!(first.1 .0, 0.75);
    histogram.observe(Float(8.0));
    let second = histogram.collect();
    assert_eq!(second.0, 3);
    assert_eq!(second.1 .0, 8.75);
    assert_eq!(plain(second.2), vec![(1.0, 2), (10.0, 1), (f64::INFINITY, 0)]);
    let third = histogram.collect();
    assert_eq!(third.1 .0, 8.75);
}

#[test]
fn the_bucket_of_a_float() {
    let bounds = floats(&[1.0, 2.5]);
    assert_eq!(bounds.bucket_index(&Float(f64::NEG_INFINITY)), Some(0));
    assert_eq!(bounds.bucket_index(&Float(1.0)), Some(0));
    assert_eq!(bounds.bucket_index(&Float(1.5)), Some(1));
    assert_eq!(bounds.bucket_index(&Float(2.5)), Some(1));
    assert_eq!(bounds.bucket_index(&Float(2.6)), None);
    assert_eq!(bounds.bucket_index(&Float(f64::INFINITY)), None);
    assert_eq!(bounds.bucket_index(&Float(f64::NAN)), None);
    assert_eq!(bounds.values(), bounds);
    let histogram = Histogram::new_trusted(bounds);
    assert_eq!(histogram.bucket_count(), 4);
    assert_eq!(histogram.bucket_of(&Float(0.0)), 0);
    assert_eq!(histogram.bucket_of(&Float(2.0)), 1);
    assert_eq!(histogram.bucket_of(&Float(3.0)), 2);
    assert_eq!(histogram.bucket_of(&Float(f64::INFINITY)), 2);
    assert_eq!(histogram.bucket_of(&Float(f64::NAN)), 3);
    let labels = histogram.labels();
    assert_eq!(labels[..3], [Float(1.0), Float(2.5), Float(f64::INFINITY)]);
    assert!(labels[3].0.is_nan());
}

#[test]
fn an_empty_sink_is_hidden() {
    let hidden = show(vec![(Float(1.0), 1), (Float(f64::INFINITY), 0), (Float(f64::NAN), 0)]);
    assert_eq!(plain(hidden), vec![(1.0, 1), (f64::INFINITY, 0)]);
    let kept = show(vec![(Float(1.0), 1), (Float(f64::INFINITY), 0), (Float(f64::NAN), 2)]);
    assert_eq!(kept.len(), 3);
    assert_eq!(kept[2].1, 2);
    let no_sink = show(vec![(Float(1.0), 1), (Float(f64::INFINITY), 0)]);
    assert_eq!(plain(no_sink), vec![(1.0, 1), (f64::INFINITY, 0)]);
    assert_eq!(show(Vec::<(Float, u64)>::new()).len(), 0);
}

#[test]
fn merging_float_readings() {
    let labels = vec![Float(1.0), Float(f64::INFINITY), Float(f64::NAN)];
    let cold = (3, Float(2.5), vec![2, 1, 0]);
    let hot = (2, Float(f64::INFINITY), vec![0, 1, 1]);
    let (count, sum, buckets) = merge(&labels, cold, hot);
    assert_eq!(count, 5);
    assert_eq!(sum.0, f64::INFINITY);
    assert_eq!(buckets.len(), 3);
    assert_eq!(buckets[0], (Float(1.0), 2));
    assert_eq!(buckets[1], (Float(f64::INFINITY), 2));
    assert_eq!(buckets[2].1, 1);
}

#[test]
fn numbers_survive_their_bit_pattern() {
    for x in [0.0, -0.0, 1.0, 0.1, -7.5e300, f64::MIN_POSITIVE, f64::MAX, f64::INFINITY, f64::NEG_INFINITY] {
        let back = Float::from_bits(Float(x).to_bits());
        assert_eq!(back.0, x);
        assert_eq!(back.0.is_sign_negative(), x.is_sign_negative());
    }
}
