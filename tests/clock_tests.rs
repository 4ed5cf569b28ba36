use trade_latency::calibration::{
    best_offset, sample_from_response, sample_from_round, CalibrationSample, Calibrator,
    MAX_CALIBRATION_ROUNDS,
};
use trade_latency::epoch::ClockAnchor;

#[test]
fn converts_tick_to_epoch() {
    let a = ClockAnchor::new(1_000, 1_769_693_418_802_000);
    assert_eq!(a.to_epoch_us(1_000), Some(1_769_693_418_802_000));
    assert_eq!(a.to_epoch_us(43_000), Some(1_769_693_418_844_000));
    assert_eq!(a.to_epoch_us(999), None);
    assert_eq!(a.monotonic_reference(), 1_000);
    assert_eq!(a.epoch_reference_us(), 1_769_693_418_802_000);
}

#[test]
fn conversion_is_monotonic() {
    let a = ClockAnchor::new(500, 2_000_000);
    let mut prev = a.to_epoch_us(500).unwrap();
    for t in 501..2000u64 {
        let cur = a.to_epoch_us(t).unwrap();
        assert!(prev <= cur);
        prev = cur;
    }
}

#[test]
fn conversion_past_range_is_refused() {
    let a = ClockAnchor::new(0, u64::MAX - 5);
    assert_eq!(a.to_epoch_us(5), Some(u64::MAX));
    assert_eq!(a.to_epoch_us(6), None);
}

#[test]
fn sample_of_one_round() {
    // sent at 1_000_000 us, answered 400 us later, authority read 900 ms
    let s = sample_from_round(1_000_000, 1_000_400, 900).unwrap();
    assert_eq!(s, CalibrationSample { offset_us: 100_200, round_trip_us: 400 });
    assert_eq!(sample_from_round(10, 9, 0), None);
    assert_eq!(sample_from_round(0, 0, u64::MAX), None);
}

#[test]
fn offset_is_invariant_under_round_trip() {
    let skew: i64 = 3_500;
    for rt in [0u64, 1, 999, 20_000, 150_001, 2_000_000] {
        for t1 in [1_769_693_418_802_000u64, 1_769_693_418_802_777] {
            let remote_us = t1 + rt / 2 - skew as u64;
            let s = sample_from_round(t1, t1 + rt, remote_us / 1000).unwrap();
            assert!(s.offset_us >= skew && s.offset_us < skew + 1000);
            assert_eq!(s.round_trip_us, rt);
        }
    }
}

#[test]
fn best_offset_takes_shortest_round_trip() {
    let samples = [
        CalibrationSample { offset_us: 10, round_trip_us: 500 },
        CalibrationSample { offset_us: 20, round_trip_us: 100 },
        CalibrationSample { offset_us: 30, round_trip_us: 100 },
        CalibrationSample { offset_us: 40, round_trip_us: 900 },
    ];
    assert_eq!(best_offset(&samples), Some(20));
    assert_eq!(best_offset(&[]), None);
}

#[test]
fn sample_from_authority_body() {
    let body = b"{\"serverTime\":1769693418802}";
    let s = sample_from_response(1_769_693_418_800_000, 1_769_693_418_806_000, body).unwrap();
    assert_eq!(s, CalibrationSample { offset_us: 1_000, round_trip_us: 6_000 });
    assert_eq!(sample_from_response(0, 10, b"{\"error\":1}"), None);
}

#[test]
fn calibrator_caps_rounds_and_picks_best() {
    let mut c = Calibrator::new(1000);
    let mut rounds = 0u64;
    while c.needs_round() {
        let t1 = 1_769_693_418_000_000 + rounds * 1_000_000;
        let rt = 2_000 + (rounds % 3) * 1_000;
        let remote_ms = (t1 + rt / 2 - 7_000) / 1000;
        if rounds == 4 {
            c.record_failure();
        } else {
            let body = format!("{{\"serverTime\":{}}}", remote_ms);
            c.record_response(t1, t1 + rt, body.as_bytes());
        }
        rounds += 1;
    }
    assert_eq!(rounds, MAX_CALIBRATION_ROUNDS);
    let r = c.finish();
    assert!(!r.degraded);
    assert_eq!(r.offset_us, 7_000);
}

#[test]
fn calibration_without_samples_is_degraded() {
    let mut c = Calibrator::new(3);
    while c.needs_round() {
        c.record_response(0, 10, b"not json");
    }
    let r = c.finish();
    assert!(r.degraded);
    assert_eq!(r.offset_us, 0);
    let c = Calibrator::new(0);
    assert!(!c.needs_round());
    assert!(c.finish().degraded);
}
