use rust_ao::telemetry::TelemetryRing;

#[test]
fn ring_fills_then_overwrites_oldest() {
    let mut ring: TelemetryRing<Vec<i64>> = TelemetryRing::new(2);
    assert_eq!(ring.len(), 0);
    ring.publish(vec![10], 0);
    ring.publish(vec![11], 1);
    assert_eq!(ring.len(), 2);
    // Full: the third publish overwrites the oldest slot in place.
    ring.publish(vec![12], 2);
    assert_eq!(ring.len(), 2);
    assert_eq!(ring.get(0).sequence, 2);
    assert_eq!(ring.get(0).payload, vec![12]);
    assert_eq!(ring.get(1).sequence, 1);
    assert_eq!(ring.get(1).payload, vec![11]);
    ring.publish(vec![13], 3);
    assert_eq!(ring.get(0).sequence, 2);
    assert_eq!(ring.get(1).sequence, 3);
}

#[test]
fn ring_keeps_sequence_tags() {
    let mut ring: TelemetryRing<Vec<i128>> = TelemetryRing::new(8);
    for s in 0..5u64 {
        ring.publish(vec![s as i128 * 100], s);
    }
    assert_eq!(ring.len(), 5);
    for s in 0..5usize {
        assert_eq!(ring.get(s).sequence, s as u64);
        assert_eq!(ring.get(s).payload, vec![s as i128 * 100]);
    }
}
