use recommender::stats::{calculate_stats, percentile, sort_values};
use recommender::UsageStats;

#[test]
fn empty_samples_give_all_zero_stats() {
    let stats = calculate_stats(&Vec::new());
    assert_eq!(
        stats,
        UsageStats { min: 0, max: 0, avg: 0, p50: 0, p95: 0, p99: 0 }
    );
}

#[test]
fn stats_of_unsorted_samples() {
    // 1..=100 shuffled a little; nearest-rank: p50 at ceil(0.5*99)=50,
    // p95 at ceil(0.95*99)=95, p99 at ceil(0.99*99)=99.
    let mut values: Vec<u64> = (1..=100u64).rev().collect();
    values.swap(3, 77);
    let stats = calculate_stats(&values);
    assert_eq!(stats.min, 1);
    assert_eq!(stats.max, 100);
    assert_eq!(stats.avg, 50); // 5050 / 100
    assert_eq!(stats.p50, 51);
    assert_eq!(stats.p95, 96);
    assert_eq!(stats.p99, 100);
}

#[test]
fn stats_are_ordered_for_nonempty_samples() {
    let values: Vec<u64> = vec![9, 2, 400, 47, 47, 3, 1000000, 0];
    let s = calculate_stats(&values);
    assert!(s.min <= s.p50);
    assert!(s.p50 <= s.p95);
    assert!(s.p95 <= s.p99);
    assert!(s.p99 <= s.max);
    assert!(s.min <= s.avg);
    assert!(s.avg <= s.max);
}

#[test]
fn percentile_boundaries_degenerate_to_min_and_max() {
    let sorted: Vec<u64> = vec![3, 7, 7, 20, 150];
    assert_eq!(percentile(&sorted, 0), 3);
    assert_eq!(percentile(&sorted, 100), 150);
}

#[test]
fn percentile_uses_ceiling_rank() {
    let sorted: Vec<u64> = vec![10, 20, 30, 40];
    // rank = ceil(p/100 * 3)
    assert_eq!(percentile(&sorted, 50), 30); // ceil(1.5) = 2
    assert_eq!(percentile(&sorted, 34), 30); // ceil(1.02) = 2
    assert_eq!(percentile(&sorted, 33), 20); // ceil(0.99) = 1
}

#[test]
fn percentile_rank_small_values() {
    let sorted: Vec<u64> = vec![10, 20];
    assert_eq!(percentile(&sorted, 95), 20); // ceil(0.95) = 1
    assert_eq!(percentile(&sorted, 0), 10);
    assert_eq!(percentile(&sorted, 1), 20); // ceil(0.01) = 1
}

#[test]
fn sort_values_sorts_ascending() {
    let values: Vec<u64> = vec![5, 1, 4, 1, 9];
    let sorted = sort_values(&values);
    assert_eq!(sorted, vec![1, 1, 4, 5, 9]);
}

#[test]
fn single_sample_stats() {
    let values: Vec<u64> = vec![42];
    let s = calculate_stats(&values);
    assert_eq!(
        s,
        UsageStats { min: 42, max: 42, avg: 42, p50: 42, p95: 42, p99: 42 }
    );
}
