use histogram::{observe_u64, Histogram, HistogramBuckets, HistogramValue};
use std::sync::atomic::{AtomicU64, Ordering};
use std::sync::Arc;

#[test]
fn basic_integer() {
    let histogram = Histogram::new([10u64, 100]);
    histogram.observe(7);
    histogram.observe(42);
    histogram.observe(80100);
    let (count, sum, buckets) = histogram.collect();
    assert_eq!(count, 3);
    assert_eq!(sum, 80149);
    assert_eq!(buckets, vec![(10, 1), (100, 1), (u64::MAX, 1)]);
}

#[test]
fn empty_integer() {
    let histogram = Histogram::new(vec![10u64, 100]);
    let (count, sum, buckets) = histogram.collect();
    assert_eq!(count, 0);
    assert_eq!(sum, 0);
    assert_eq!(buckets, vec![(10, 0), (100, 0), (u64::MAX, 0)]);
}

#[test]
fn a_value_on_a_bound_belongs_to_it() {
    let histogram = Histogram::new(vec![10u64, 100]);
    histogram.observe(10);
    histogram.observe(11);
    histogram.observe(100);
    histogram.observe(101);
    histogram.observe(0);
    let (count, sum, buckets) = histogram.collect();
    assert_eq!(count, 5);
    assert_eq!(sum, 222);
    assert_eq!(buckets, vec![(10, 2), (100, 2), (u64::MAX, 1)]);
}

#[test]
fn each_value_goes_to_the_least_bound_that_holds_it() {
    let bounds = vec![3u64, 5, 8, 13, 21];
    let histogram = Histogram::new(bounds.clone());
    for value in 0u64..30 {
        let expected = bounds.iter().position(|b| value <= *b).unwrap_or(bounds.len());
        assert_eq!(histogram.bucket_of(&value), expected);
        let (_, _, before) = histogram.collect();
        histogram.observe(value);
        let (_, _, after) = histogram.collect();
        for slot in 0..after.len() {
            let gained = if slot == expected { 1 } else { 0 };
            assert_eq!(after[slot].1, before[slot].1 + gained);
        }
    }
}

#[test]
fn collecting_twice_gives_the_same() {
    let histogram = Histogram::new(vec![10u64, 100]);
    histogram.observe(7);
    let first = histogram.collect();
    let second = histogram.collect();
    assert_eq!(first, second);
    histogram.observe(42);
    histogram.observe(80100);
    let third = histogram.collect();
    let fourth = histogram.collect();
    let fifth = histogram.collect();
    assert_eq!(third, (3, 80149, vec![(10, 1), (100, 1), (u64::MAX, 1)]));
    assert_eq!(third, fourth);
    assert_eq!(fourth, fifth);
}

#[test]
fn nothing_is_lost_between_the_shards() {
    let histogram = Histogram::new(vec![10u64, 100, 1000]);
    let mut observed: u64 = 0;
    let mut sum: u64 = 0;
    let mut per_bucket = [0u64; 4];
    for round in 0u64..50 {
        for step in 0u64..7 {
            let value = round * 37 + step * 11;
            histogram.observe(value);
            observed += 1;
            sum += value;
            per_bucket[[10u64, 100, 1000].iter().position(|b| value <= *b).unwrap_or(3)] += 1;
        }
        let (count, total, buckets) = histogram.collect();
        assert_eq!(count, observed);
        assert_eq!(total, sum);
        assert_eq!(buckets.iter().map(|b| b.1).sum::<u64>(), count);
        assert_eq!(buckets.iter().map(|b| b.1).collect::<Vec<_>>(), per_bucket.to_vec());
    }
    assert_eq!(observed, 350);
}

#[test]
fn observing_and_collecting_in_turn() {
    let histogram = Histogram::new(&[10u64, 100]);
    let h1 = histogram.clone();
    let h2 = histogram.clone();
    histogram.observe(7);
    h1.observe(42);
    let (count, sum, buckets) = h2.collect();
    assert!(count <= 3);
    let [(10, b0), (100, b1), (u64::MAX, b2)] = buckets[..] else {
        unreachable!()
    };
    assert_eq!(count, b0 + b1 + b2);
    let if_bucket = |b, v| if b == 1 { v } else { 0 };
    assert_eq!(sum, if_bucket(b0, 7) + if_bucket(b1, 42) + if_bucket(b2, 80100));
    histogram.observe(80100);
    let (count, sum, buckets) = histogram.collect();
    assert_eq!(count, 3);
    assert_eq!(sum, 80149);
    assert_eq!(buckets, vec![(10, 1), (100, 1), (u64::MAX, 1)]);
}

#[test]
fn the_sum_of_integers_wraps_around() {
    let histogram = Histogram::new(vec![10u64]);
    histogram.observe(u64::MAX);
    histogram.observe(3);
    let (count, sum, buckets) = histogram.collect();
    assert_eq!(count, 2);
    assert_eq!(sum, 2);
    assert_eq!(buckets, vec![(10, 1), (u64::MAX, 1)]);
    histogram.collect();
    histogram.observe(u64::MAX);
    let (count, sum, _) = histogram.collect();
    assert_eq!(count, 3);
    assert_eq!(sum, 1);
}

#[test]
fn buckets_beyond_the_first_cache_line() {
    let bounds: Vec<u64> = (1..=20).map(|i| i * 10).collect();
    let histogram = Histogram::new(bounds.clone());
    assert_eq!(histogram.bucket_count(), 21);
    for (i, bound) in bounds.iter().enumerate() {
        for _ in 0..=i {
            histogram.observe(*bound);
        }
    }
    histogram.observe(201);
    let (count, sum, buckets) = histogram.collect();
    assert_eq!(count, 211);
    assert_eq!(sum, (1..=20u64).map(|i| i * i * 10).sum::<u64>() + 201);
    assert_eq!(buckets.len(), 21);
    for (i, bound) in bounds.iter().enumerate() {
        assert_eq!(buckets[i], (*bound, i as u64 + 1));
    }
    assert_eq!(buckets[20], (u64::MAX, 1));
}

#[test]
fn a_histogram_without_bounds() {
    let histogram = Histogram::new(Vec::<u64>::new());
    assert_eq!(histogram.bucket_count(), 1);
    histogram.observe(0);
    histogram.observe(u64::MAX);
    let (count, sum, buckets) = histogram.collect();
    assert_eq!(count, 2);
    assert_eq!(sum, u64::MAX);
    assert_eq!(buckets, vec![(u64::MAX, 2)]);
}

#[test]
fn trusted_buckets() {
    let histogram = Histogram::new_trusted(vec![10u64, 100]);
    histogram.observe(7);
    histogram.observe(42);
    histogram.observe(80100);
    assert_eq!(histogram.collect(), (3, 80149, vec![(10, 1), (100, 1), (u64::MAX, 1)]));
}

#[test]
fn a_histogram_can_be_printed() {
    let histogram = Histogram::new(vec![10u64, 100]);
    let text = format!("{:?}", histogram);
    assert!(text.starts_with("Histogram("));
    assert!(text.contains("bucket_count: 3"));
}

#[test]
fn clones_share_their_counters() {
    let histogram = Histogram::new(vec![10u64, 100]);
    let other = histogram.clone();
    histogram.observe(7);
    other.observe(42);
    assert_eq!(other.collect(), (2, 49, vec![(10, 1), (100, 1), (u64::MAX, 0)]));
    assert_eq!(histogram.collect(), (2, 49, vec![(10, 1), (100, 1), (u64::MAX, 0)]));
}

#[test]
fn observe_u64_records_in_a_histogram_over_a_slice() {
    let bounds = [10u64, 100];
    let histogram = Histogram::new(&bounds[..]);
    observe_u64(&histogram, 7);
    observe_u64(&histogram, 80100);
    assert_eq!(histogram.collect(), (2, 80107, vec![(10, 1), (100, 0), (u64::MAX, 1)]));
}

#[test]
fn every_container_of_bounds() {
    let expected = (2, 107, vec![(10, 1), (100, 1), (u64::MAX, 0)]);
    let from_vec = Histogram::new(vec![10u64, 100]);
    let from_array = Histogram::new([10u64, 100]);
    let from_array_ref = Histogram::new(&[10u64, 100]);
    let from_slice = Histogram::new(&[10u64, 100][..]);
    let from_box = Histogram::new(vec![10u64, 100].into_boxed_slice());
    let from_arc = Histogram::new(Arc::<[u64]>::from(vec![10u64, 100]));
    from_vec.observe(7);
    from_vec.observe(100);
    from_array.observe(7);
    from_array.observe(100);
    from_array_ref.observe(7);
    from_array_ref.observe(100);
    from_slice.observe(7);
    from_slice.observe(100);
    from_box.observe(7);
    from_box.observe(100);
    from_arc.observe(7);
    from_arc.observe(100);
    assert_eq!(from_vec.collect(), expected);
    assert_eq!(from_array.collect(), expected);
    assert_eq!(from_array_ref.collect(), expected);
    assert_eq!(from_slice.collect(), expected);
    assert_eq!(from_box.collect(), expected);
    assert_eq!(from_arc.collect(), expected);
}

#[test]
fn the_bucket_of_a_value() {
    let bounds = vec![10u64, 100];
    assert_eq!(bounds.bucket_index(&0), Some(0));
    assert_eq!(bounds.bucket_index(&10), Some(0));
    assert_eq!(bounds.bucket_index(&11), Some(1));
    assert_eq!(bounds.bucket_index(&100), Some(1));
    assert_eq!(bounds.bucket_index(&101), None);
    assert_eq!(bounds.values(), vec![10, 100]);
    let histogram = Histogram::new(bounds);
    assert_eq!(histogram.bucket_count(), 3);
    assert_eq!(histogram.bucket_of(&10), 0);
    assert_eq!(histogram.bucket_of(&100), 1);
    assert_eq!(histogram.bucket_of(&101), 2);
    assert_eq!(histogram.labels(), vec![10, 100, u64::MAX]);
}

#[test]
fn integers_as_values() {
    assert!(!<u64 as HistogramValue>::HAS_NAN);
    assert!(!HistogramValue::is_nan(&7u64));
    assert!(7u64.within(&7));
    assert!(7u64.within(&8));
    assert!(!7u64.within(&6));
    assert_eq!(<u64 as HistogramValue>::infinity(), u64::MAX);
    assert_eq!(<u64 as HistogramValue>::nan(), None);
    assert_eq!(HistogramValue::combine(40u64, 2), 42);
    assert_eq!(HistogramValue::combine(u64::MAX, 2), 1);
    for x in [0u64, 1, 42, 1 << 63, u64::MAX] {
        assert_eq!(HistogramValue::to_bits(x), x);
        assert_eq!(<u64 as HistogramValue>::from_bits(HistogramValue::to_bits(x)), x);
    }
    let counter = AtomicU64::new(40);
    <u64 as HistogramValue>::atomic_add(&counter, 2, Ordering::Release);
    assert_eq!(counter.load(Ordering::Relaxed), 42);
    <u64 as HistogramValue>::atomic_add(&counter, u64::MAX, Ordering::Relaxed);
    assert_eq!(counter.load(Ordering::Relaxed), 41);
}
