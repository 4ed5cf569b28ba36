use trade_latency::pipeline::{measure, EventRecord, MeasurementPipeline};
use trade_latency::placement::{
    choose_sink, set_cpu_affinity, set_thread_priority, NoPlacement, SinkKind, ThreadPlacement,
};
use trade_latency::record::{header_line, push_decimal, write_record, RecordBuffer};
use trade_latency::stats::LatencyStats;

const ID: &[u8] = b"\"id\":";
const TIME: &[u8] = b"\"time\":";

#[test]
fn end_to_end_single_payload() {
    let payload = b"{\"id\":5827967018,\"time\":1769693418802}";
    let mut stats = LatencyStats::new(100);
    let mut p = MeasurementPipeline::new(0, String::from("m1"), 0);
    let arrival_us = (1769693418802u64 + 42) * 1000;
    let rec = p.on_payload(&mut stats, payload, arrival_us).unwrap();
    assert_eq!(rec.event_id, 5827967018);
    assert_eq!(rec.latency_us, 42_000);
    assert_eq!(rec.latency_us / 1000, 42);
    assert_eq!(rec.event_time_us, 1769693418802000);
    assert_eq!(rec.arrival_time_us, arrival_us);
    assert_eq!(rec.origin_label, "m1");
    let mut line = Vec::new();
    write_record(&mut line, &rec);
    assert_eq!(
        String::from_utf8(line).unwrap(),
        "5827967018,1769693418802000,1769693418844000,42.00,m1\n"
    );
    assert_eq!(stats.count(), 1);
    assert!(!p.is_done());
}

#[test]
fn end_to_end_thousand_consecutive_ids() {
    let mut stats = LatencyStats::new(10_000);
    let mut p = MeasurementPipeline::new(0, String::from("run"), 0);
    let mut records = 0u64;
    for k in 0..1000u64 {
        let payload = format!("{{\"id\":{},\"time\":{}}}", 5_000_000 + k, 1769693418802u64 + k);
        let arrival = (1769693418802u64 + k + 30) * 1000;
        if p.on_payload(&mut stats, payload.as_bytes(), arrival).is_some() {
            records += 1;
        }
    }
    assert_eq!(records, 1000);
    assert_eq!(stats.count(), 1000);
    assert_eq!(stats.gap_count(), 0);
    assert_eq!(stats.out_of_order_count(), 0);
    assert_eq!((stats.min_latency(), stats.max_latency()), (30_000, 30_000));
}

#[test]
fn calibration_offset_is_subtracted_and_not_clamped() {
    let payload = b"{\"id\":1,\"time\":1769693418802}";
    let arrival = 1769693418802u64 * 1000 + 500;
    assert_eq!(measure(payload, ID, TIME, arrival, 2_000), Some((1, 1769693418802000, -1_500)));
    assert_eq!(measure(payload, ID, TIME, arrival, -2_000), Some((1, 1769693418802000, 2_500)));
    assert_eq!(measure(b"{\"id\":1}", ID, TIME, arrival, 0), None);
}

#[test]
fn pipeline_with_other_keys() {
    let mut stats = LatencyStats::new(10);
    let mut p = MeasurementPipeline::with_keys(b"\"t\":".to_vec(), b"\"T\":".to_vec(), 0, String::from("b"), 0);
    let payload = b"{\"e\":\"trade\",\"E\":1769693418944,\"t\":5827967018,\"p\":\"88120.26\",\"T\":1769693418802,\"m\":false}";
    let rec = p.on_payload(&mut stats, payload, 1769693418944000).unwrap();
    assert_eq!((rec.event_id, rec.latency_us), (5827967018, 142_000));
}

#[test]
fn measurement_out_of_range_is_discarded() {
    // event time in microseconds would pass 64 bits
    let payload = b"{\"id\":1,\"time\":18446744073709552}";
    assert_eq!(measure(payload, ID, TIME, 0, 0), None);
}

#[test]
fn pipeline_stops_at_minimum_count() {
    let mut stats = LatencyStats::new(10);
    let mut p = MeasurementPipeline::new(0, String::from("x"), 2);
    let a = p.on_payload(&mut stats, b"{\"id\":1,\"time\":1769693418802}", 1769693418803000);
    assert!(a.is_some() && !p.is_done());
    let skipped = p.on_payload(&mut stats, b"garbage", 1769693418803000);
    assert!(skipped.is_none() && !p.is_done());
    let b = p.on_payload(&mut stats, b"{\"id\":2,\"time\":1769693418802}", 1769693418804000);
    assert!(b.is_some() && p.is_done());
    let c = p.on_payload(&mut stats, b"{\"id\":3,\"time\":1769693418802}", 1769693418805000);
    assert!(c.is_none());
    assert_eq!(stats.count(), 2);
    assert_eq!(p.offset_us(), 0);
}

#[test]
fn latency_text_rounds_and_signs() {
    let mk = |lat: i64| EventRecord {
        event_id: 0,
        event_time_us: 7,
        arrival_time_us: 10,
        latency_us: lat,
        origin_label: String::from("é"),
    };
    let cases = [
        (0i64, "0.00"),
        (1_234, "1.23"),
        (1_235, "1.24"),
        (-1_235, "-1.24"),
        (-3, "-0.00"),
        (99_995, "100.00"),
        (i64::MIN, "-9223372036854775.81"),
    ];
    for (lat, text) in cases {
        let mut out = Vec::new();
        write_record(&mut out, &mk(lat));
        assert_eq!(String::from_utf8(out).unwrap(), format!("0,7,10,{},é\n", text));
    }
}

#[test]
fn decimal_digits() {
    let mut out = b"x".to_vec();
    push_decimal(&mut out, 0);
    push_decimal(&mut out, 1907);
    push_decimal(&mut out, u64::MAX);
    assert_eq!(out, b"x0190718446744073709551615".to_vec());
}

#[test]
fn header_names_the_columns() {
    assert_eq!(
        String::from_utf8(header_line()).unwrap(),
        "event_id,event_time_us,arrival_time_us,latency_ms,origin_label\n"
    );
}

#[test]
fn record_buffer_flush_thresholds() {
    let rec = EventRecord {
        event_id: 1,
        event_time_us: 2,
        arrival_time_us: 3,
        latency_us: 1000,
        origin_label: String::from("a"),
    };
    let mut b = RecordBuffer::new(3, 1 << 20);
    assert!(b.is_empty());
    assert!(!b.append(&rec));
    assert!(!b.append(&rec));
    assert!(b.append(&rec));
    let bytes = b.take();
    assert_eq!(String::from_utf8(bytes).unwrap(), "1,2,3,1.00,a\n".repeat(3));
    assert!(b.is_empty());
    assert!(!b.append(&rec));
    let mut small = RecordBuffer::new(1000, 10);
    assert!(small.append(&rec));
}

struct Recording {
    pinned: Vec<usize>,
    levels: Vec<i32>,
}

impl ThreadPlacement for Recording {
    fn last_pin_request(&self) -> Option<usize> {
        self.pinned.last().copied()
    }
    fn last_pin_ok(&self) -> bool {
        true
    }
    fn last_priority_request(&self) -> Option<i32> {
        self.levels.last().copied()
    }
    fn last_priority_ok(&self) -> bool {
        true
    }
    fn try_pin_to_unit(&mut self, unit: usize) -> bool {
        self.pinned.push(unit);
        true
    }
    fn try_set_priority(&mut self, level: i32) -> bool {
        self.levels.push(level);
        true
    }
}

#[test]
fn placement_requests() {
    let mut none = NoPlacement::new();
    assert!(!set_cpu_affinity(&mut none, 1));
    assert_eq!(none.last_pin, Some(1));
    assert!(!set_cpu_affinity(&mut none, 2000));
    assert_eq!(none.last_pin, Some(1));
    assert!(!set_thread_priority(&mut none, 10));
    assert_eq!(none.last_priority, Some(10));
    let mut rec = Recording { pinned: Vec::new(), levels: Vec::new() };
    assert!(set_cpu_affinity(&mut rec, 1));
    assert!(set_cpu_affinity(&mut rec, 1023));
    assert!(!set_cpu_affinity(&mut rec, 1024));
    assert_eq!(rec.pinned, vec![1, 1023]);
    assert_eq!(rec.last_pin_request(), Some(1023));
    // every level goes to the platform, which may clamp it
    assert!(set_thread_priority(&mut rec, 19));
    assert!(set_thread_priority(&mut rec, 25));
    assert!(set_thread_priority(&mut rec, -30));
    assert_eq!(rec.levels, vec![19, 25, -30]);
}

#[test]
fn log_of_thousand_records() {
    let mut stats = LatencyStats::new(100);
    let mut p = MeasurementPipeline::new(0, String::from("r"), 1000);
    let mut buf = RecordBuffer::new(1000, 1 << 24);
    let mut log = header_line();
    for id in 1..=1000u64 {
        let payload = format!("{{\"id\":{},\"time\":1769693418802}}", id);
        let rec = p.on_payload(&mut stats, payload.as_bytes(), 1769693418812000).unwrap();
        if buf.append(&rec) {
            log.extend_from_slice(buf.as_bytes());
            buf.clear();
        }
    }
    assert!(p.is_done());
    assert!(buf.is_empty());
    let text = String::from_utf8(log).unwrap();
    let lines: Vec<&str> = text.lines().collect();
    assert_eq!(lines.len(), 1001);
    assert_eq!(lines[0], "event_id,event_time_us,arrival_time_us,latency_ms,origin_label");
    for (k, line) in lines[1..].iter().enumerate() {
        assert!(line.starts_with(&format!("{},", k + 1)));
        assert!(line.ends_with(",10.00,r"));
    }
}

#[test]
fn measure_then_absorb_matches_on_payload() {
    let mut stats = LatencyStats::new(10);
    let mut p = MeasurementPipeline::new(1_000, String::from("s"), 0);
    let m = p.measure_payload(b"{\"id\":3,\"time\":1769693418802}", 1769693418812000).unwrap();
    assert_eq!(m, (3, 1769693418802000, 9_000));
    assert_eq!(stats.count(), 0);
    let rec = p.absorb(&mut stats, m, 1769693418812000).unwrap();
    assert_eq!((rec.event_id, rec.latency_us), (3, 9_000));
    assert_eq!(stats.count(), 1);
    assert_eq!(p.measure_payload(b"{}", 0), None);
}

#[test]
fn sink_follows_parallelism() {
    assert_eq!(choose_sink(1), SinkKind::Buffered);
    assert_eq!(choose_sink(0), SinkKind::Buffered);
    assert_eq!(choose_sink(2), SinkKind::Relayed);
    assert_eq!(choose_sink(64), SinkKind::Relayed);
}
