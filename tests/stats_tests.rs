use trade_latency::stats::{percentile_position, LatencyStats};

#[test]
fn min_max_and_count_follow_updates() {
    let mut s = LatencyStats::new(100);
    let lats = [5i64, -3, 12, 7, 0, 12];
    for (k, l) in lats.iter().enumerate() {
        s.update(k as u64 + 1, *l);
    }
    assert_eq!(s.count(), 6);
    assert_eq!(s.min_latency(), -3);
    assert_eq!(s.max_latency(), 12);
    assert_eq!(s.sum(), 33);
    for l in lats.iter() {
        assert!(s.min_latency() <= *l && *l <= s.max_latency());
    }
}

#[test]
fn sentinels_before_first_update() {
    let s = LatencyStats::new(10);
    assert_eq!(s.count(), 0);
    assert_eq!(s.min_latency(), i64::MAX);
    assert_eq!(s.max_latency(), i64::MIN);
    let snap = s.snapshot();
    assert_eq!((snap.count, snap.min, snap.max, snap.p50, snap.p99), (0, 0, 0, 0, 0));
}

#[test]
fn gap_and_out_of_order_for_1_2_4_3() {
    let mut s = LatencyStats::new(10);
    for id in [1u64, 2, 4, 3] {
        s.update(id, 10);
    }
    assert_eq!(s.gap_count(), 1);
    assert_eq!(s.out_of_order_count(), 1);
}

#[test]
fn gap_counts_skipped_ids() {
    let mut s = LatencyStats::new(10);
    s.update(10, 1);
    s.update(15, 1);
    assert_eq!(s.gap_count(), 4);
    s.update(15, 1);
    assert_eq!(s.gap_count(), 4);
    assert_eq!(s.out_of_order_count(), 0);
}

#[test]
fn window_keeps_last_capacity_values() {
    let mut s = LatencyStats::new(3);
    for k in 0..8i64 {
        s.update(k as u64 + 1, k * 10);
        assert!(s.recent_latencies().len() <= 3);
    }
    assert_eq!(s.recent_latencies(), vec![50, 60, 70]);
    assert_eq!(s.count(), 8);
}

#[test]
fn zero_capacity_window_stays_empty() {
    let mut s = LatencyStats::new(0);
    s.update(1, 5);
    assert!(s.recent_latencies().is_empty());
    let snap = s.snapshot();
    assert_eq!((snap.count, snap.min, snap.max, snap.p50), (1, 5, 5, 0));
}

#[test]
fn snapshot_percentiles_from_sorted_window() {
    let mut s = LatencyStats::new(1000);
    // 100 latencies: 99, 98, ..., 0
    for k in 0..100i64 {
        s.update(k as u64 + 1, 99 - k);
    }
    let snap = s.snapshot();
    assert_eq!(snap.sorted_window, (0..100).collect::<Vec<i64>>());
    assert_eq!(snap.p50, 50);
    assert_eq!(snap.p95, 95);
    assert_eq!(snap.p99, 99);
    assert_eq!(snap.count, 100);
    assert_eq!(snap.sum, 4950);
    assert_eq!((snap.min, snap.max), (0, 99));
}

#[test]
fn percentile_position_clamps() {
    assert_eq!(percentile_position(1, 99), 0);
    assert_eq!(percentile_position(10, 50), 5);
    assert_eq!(percentile_position(10, 95), 9);
    assert_eq!(percentile_position(10, 100), 9);
    assert_eq!(percentile_position(200, 99), 198);
}
