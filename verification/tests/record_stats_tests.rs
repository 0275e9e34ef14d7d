use capture_pipeline::record::RecordSequencer;
use capture_pipeline::stats::HandoffStats;

#[test]
fn record_timestamps_never_decrease() {
    let mut seq = RecordSequencer::new();
    let r1 = seq.make_record(100, vec![1u8]);
    assert_eq!(r1.recorded_at_ms, 100);
    let r2 = seq.make_record(90, vec![2u8]);
    assert_eq!(r2.recorded_at_ms, 100, "a clock stepping backward is clamped");
    let r3 = seq.make_record(150, vec![3u8]);
    assert_eq!(r3.recorded_at_ms, 150);
    assert!(r1.recorded_at_ms <= r2.recorded_at_ms && r2.recorded_at_ms <= r3.recorded_at_ms);
}

#[test]
fn record_keeps_its_payload() {
    let mut seq = RecordSequencer::new();
    let r = seq.make_record(7, vec![1u8, 2, 3]);
    assert_eq!(r.payload, vec![1u8, 2, 3]);
}

#[test]
fn drop_counter_counts_only_drops() {
    let mut stats = HandoffStats::new();
    stats.note_sent();
    stats.note_sent();
    stats.note_dropped();
    assert_eq!(stats.sent, 2);
    assert_eq!(stats.dropped, 1);
}

#[test]
fn counters_saturate_at_the_limit() {
    let mut stats = HandoffStats::new();
    stats.sent = u64::MAX;
    stats.note_sent();
    assert_eq!(stats.sent, u64::MAX);
}
