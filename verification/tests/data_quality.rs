use futures_bmad_engine::data_quality::{
    DataQualityGate, GateReason, GateState, SequenceGapDetector, StaleDataDetector, NANOS_PER_SEC,
};

const NANOS_3S: u64 = 3 * NANOS_PER_SEC;

#[test]
fn stale_detector_triggers_after_threshold() {
    let mut detector = StaleDataDetector::new(NANOS_3S);
    let base = 1_000_000_000_000u64;
    detector.on_tick(base);
    assert!(detector.check_stale(base + 2 * NANOS_PER_SEC, true).is_none());
    let gap = detector.check_stale(base + 4 * NANOS_PER_SEC, true);
    assert!(gap.is_some());
    assert_eq!(gap.unwrap(), 4 * NANOS_PER_SEC);
    assert_eq!(detector.threshold_nanos(), NANOS_3S);
}

#[test]
fn stale_detector_no_trigger_outside_market_hours() {
    let mut detector = StaleDataDetector::new(NANOS_3S);
    let base = 1_000_000_000_000u64;
    detector.on_tick(base);
    assert!(detector.check_stale(base + 10 * NANOS_PER_SEC, false).is_none());
}

#[test]
fn stale_detector_no_trigger_before_first_tick() {
    let detector = StaleDataDetector::new(NANOS_3S);
    assert!(detector.check_stale(1_000_000_000_000, true).is_none());
}

#[test]
fn stale_threshold_itself_is_not_stale() {
    let mut detector = StaleDataDetector::new(NANOS_3S);
    detector.on_tick(5);
    assert_eq!(detector.check_stale(5 + NANOS_3S, true), None);
    assert_eq!(detector.check_stale(6 + NANOS_3S, true), Some(NANOS_3S + 1));
    // A clock that runs backwards is not stale either.
    assert_eq!(detector.check_stale(4, true), None);
}

#[test]
fn sequence_gap_detects_missing_range() {
    let mut detector = SequenceGapDetector::new();
    assert!(detector.check_sequence(0, 1).is_none());
    assert!(detector.check_sequence(0, 2).is_none());
    let gap = detector.check_sequence(0, 5);
    assert_eq!(gap, Some((3, 5)));
}

#[test]
fn sequence_gap_passes_contiguous() {
    let mut detector = SequenceGapDetector::new();
    for seq in 1..=100 {
        assert!(detector.check_sequence(0, seq).is_none());
    }
}

#[test]
fn sequence_gap_per_symbol() {
    let mut detector = SequenceGapDetector::new();
    detector.check_sequence(0, 1);
    detector.check_sequence(0, 2);
    assert!(detector.check_sequence(0, 3).is_none());
    detector.check_sequence(1, 1);
    assert!(detector.check_sequence(1, 5).is_some());
    assert!(detector.check_sequence(0, 4).is_none());
}

#[test]
fn gate_starts_open() {
    let gate = DataQualityGate::new();
    assert!(gate.is_open());
}

#[test]
fn gate_activates_and_clears() {
    let mut gate = DataQualityGate::new();
    let now = 1_000_000_000_000u64;
    gate.activate(&GateReason::StaleData { gap_nanos: NANOS_3S }, now);
    assert!(!gate.is_open());
    assert_eq!(gate.state(), GateState::Gated);
    assert_eq!(gate.clear(now + NANOS_PER_SEC), Some(1000));
    assert!(gate.is_open());
}

#[test]
fn gate_does_not_flap() {
    let mut gate = DataQualityGate::new();
    let now = 1_000_000_000_000u64;
    gate.activate(&GateReason::StaleData { gap_nanos: NANOS_3S }, now);
    assert!(!gate.is_open());
    gate.activate(
        &GateReason::SequenceGap { symbol_id: 0, expected: 5, received: 10 },
        now + NANOS_PER_SEC,
    );
    assert!(!gate.is_open());
    // The gap counts from the first activation.
    assert_eq!(gate.clear(now + 2 * NANOS_PER_SEC), Some(2000));
    assert!(gate.is_open());
}

#[test]
fn gate_clear_when_already_open_is_noop() {
    let mut gate = DataQualityGate::new();
    assert_eq!(gate.clear(1_000_000_000_000), None);
    assert!(gate.is_open());
}

#[test]
fn stale_and_sequence_both_gate() {
    let mut stale = StaleDataDetector::new(NANOS_3S);
    let mut seq = SequenceGapDetector::new();
    let mut gate = DataQualityGate::new();
    let base = 1_000_000_000_000u64;

    stale.on_tick(base);
    seq.check_sequence(0, 1);
    assert!(gate.is_open());

    let gap = stale.check_stale(base + 4 * NANOS_PER_SEC, true).unwrap();
    gate.activate(&GateReason::StaleData { gap_nanos: gap }, base + 4 * NANOS_PER_SEC);
    assert!(!gate.is_open());

    stale.on_tick(base + 5 * NANOS_PER_SEC);
    assert!(stale.check_stale(base + 5 * NANOS_PER_SEC, true).is_none());
    gate.clear(base + 5 * NANOS_PER_SEC);
    assert!(gate.is_open());

    seq.check_sequence(0, 2);
    let gap = seq.check_sequence(0, 10);
    assert!(gap.is_some());
    gate.activate(
        &GateReason::SequenceGap { symbol_id: 0, expected: 3, received: 10 },
        base + 6 * NANOS_PER_SEC,
    );
    assert!(!gate.is_open());

    seq.check_sequence(0, 11);
    gate.clear(base + 7 * NANOS_PER_SEC);
    assert!(gate.is_open());
}
