use futures_bmad_engine::replay::determinism::{
    assert_fixed_price_identical, assert_regime_identical, compare_signal, compare_snapshot,
    compare_snapshot_counts, DeterminismReport, FixedPriceMismatch, PipelineSnapshotSerde,
    RegimeMismatch, SignalSnapshotSerde, SnapshotMismatch,
};
use futures_bmad_engine::replay::orchestrator::ReplayResult;
use futures_bmad_engine::types::{FixedPrice, RegimeState};

/// Panics with the difference, if there is one.
fn insist(verdict: Result<(), String>) {
    if let Err(text) = verdict {
        panic!("{text}");
    }
}

fn result(pnls: Vec<i64>, regimes: Vec<RegimeState>) -> ReplayResult {
    ReplayResult {
        total_events: 10,
        total_trades: pnls.len() as u64,
        net_pnl_qt: pnls.iter().sum(),
        trade_pnls_qt: pnls,
        regime_states: regimes,
        snapshot_events: Vec::new(),
    }
}

fn signal(name: &str) -> SignalSnapshotSerde {
    SignalSnapshotSerde { name: name.to_string(), valid: true, timestamp_nanos: 7 }
}

#[test]
fn fixed_price_identical_passes_on_equal_values() {
    insist(assert_fixed_price_identical(FixedPrice::new(17_929), FixedPrice::new(17_929)));
}

#[test]
#[should_panic(expected = "Tier 1 mismatch")]
fn fixed_price_identical_panics_on_diff() {
    insist(assert_fixed_price_identical(FixedPrice::new(17_929), FixedPrice::new(17_930)));
}

#[test]
fn regime_identical_passes_on_equal_variants() {
    insist(assert_regime_identical(&RegimeState::Trending, &RegimeState::Trending));
}

#[test]
#[should_panic(expected = "Tier 3 mismatch")]
fn regime_identical_panics_on_diff() {
    insist(assert_regime_identical(&RegimeState::Trending, &RegimeState::Volatile));
}

#[test]
fn report_is_deterministic_when_empty() {
    let mut r = DeterminismReport::new();
    r.finalize();
    assert!(r.is_deterministic);
    assert_eq!(r.total_mismatches(), 0);
}

#[test]
fn report_is_non_deterministic_with_mismatches() {
    let mut r = DeterminismReport::new();
    r.tier1_mismatches.push(FixedPriceMismatch { index: 0, expected_raw: 1, actual_raw: 2 });
    r.finalize();
    assert!(!r.is_deterministic);
    assert_eq!(r.total_mismatches(), 1);
}

#[test]
fn report_display_shows_summary_when_deterministic() {
    let mut r = DeterminismReport::new();
    r.finalize();
    let s = r.describe(&Vec::new());
    assert!(s.contains("deterministic"));
}

#[test]
fn report_display_lists_first_mismatches_when_failing() {
    let mut r = DeterminismReport::new();
    for i in 0..10 {
        r.tier1_mismatches.push(FixedPriceMismatch {
            index: i,
            expected_raw: 100 + i as i64,
            actual_raw: 100 + i as i64 + 1,
        });
    }
    r.finalize();
    let s = r.describe(&Vec::new());
    assert!(s.contains("non-deterministic"));
    assert!(s.contains("10 mismatches") || s.contains("(10"));
    assert!(s.contains("+5 more"));
}

#[test]
fn price_difference_is_spelled_out() {
    assert_eq!(
        assert_fixed_price_identical(FixedPrice::new(17), FixedPrice::new(-1)),
        Err("Tier 1 mismatch: FixedPrice values differ\n  a.raw = 17 (0x0000000000000011)\
             \n  b.raw = -1 (0xffffffffffffffff)\n  diff  = 18 qt"
            .to_string())
    );
    let mismatch = FixedPriceMismatch { index: 0, expected_raw: i64::MIN, actual_raw: 1 };
    assert_eq!(mismatch.diff_qt(), i64::MIN);
}

#[test]
fn replay_result_agrees_with_itself() {
    let a = result(vec![1, -2], vec![RegimeState::Trending]);
    let report = a.compare(&a);
    assert!(report.is_deterministic);
    assert_eq!(report.total_mismatches(), 0);
}

#[test]
fn differing_results_are_reported_by_kind() {
    let a = result(vec![1, -2], vec![RegimeState::Trending]);
    let b = result(vec![1, -3], vec![RegimeState::Volatile]);
    let report = a.compare(&b);
    assert!(!report.is_deterministic);
    assert!(report
        .tier1_mismatches
        .contains(&FixedPriceMismatch { index: 1, expected_raw: -2, actual_raw: -3 }));
    assert_eq!(
        report.tier3_mismatches,
        vec![RegimeMismatch {
            index: 0,
            expected: RegimeState::Trending,
            actual: RegimeState::Volatile
        }]
    );
    // The signal verdicts are taken as given.
    let with_signals = a.compare_with_signals(&a, 3, Vec::new());
    assert!(!with_signals.is_deterministic);
    assert_eq!(with_signals.total_mismatches(), 3);
}

#[test]
fn signal_differences_name_the_field() {
    let mut out: Vec<SnapshotMismatch> = Vec::new();
    let other = SignalSnapshotSerde { valid: false, timestamp_nanos: 8, ..signal("obi") };
    compare_signal(&signal("obi"), &other, 4, Some("a=1 vs b=2".to_string()), &mut out);
    let seen: Vec<(&str, &str)> =
        out.iter().map(|m| (m.field.as_str(), m.detail.as_str())).collect();
    assert_eq!(
        seen,
        vec![("valid", "a=true vs b=false"), ("timestamp", "a=7 vs b=8"), ("value", "a=1 vs b=2")]
    );
    assert!(out.iter().all(|m| m.snapshot_index == 4 && m.signal == "obi"));
    // Another name ends the comparison.
    let mut out: Vec<SnapshotMismatch> = Vec::new();
    compare_signal(&signal("obi"), &signal("vpin"), 0, Some("x".to_string()), &mut out);
    assert_eq!(out.len(), 1);
    assert_eq!(out[0].field, "name");
}

#[test]
fn equal_snapshots_have_no_differences() {
    let snapshot = PipelineSnapshotSerde {
        obi: signal("obi"),
        vpin: signal("vpin"),
        microprice: signal("microprice"),
    };
    let mut out = Vec::new();
    compare_snapshot(&snapshot, &snapshot, 0, None, None, None, &mut out);
    assert!(out.is_empty());
}

#[test]
fn a_difference_in_length_is_a_mismatch() {
    let b = result(Vec::new(), Vec::new());
    let a = result(Vec::new(), vec![RegimeState::Trending]);
    let report = a.compare(&b);
    assert!(!report.is_deterministic);
    assert_eq!(
        report.tier1_mismatches,
        vec![FixedPriceMismatch { index: usize::MAX, expected_raw: 1, actual_raw: 0 }]
    );
    // One listed profit more, with the same totals.
    let a = ReplayResult { trade_pnls_qt: vec![0], ..result(Vec::new(), Vec::new()) };
    assert_eq!(
        a.compare(&b).tier1_mismatches,
        vec![FixedPriceMismatch { index: usize::MAX, expected_raw: 1, actual_raw: 0 }]
    );
    // One trade more is reported once, beside the net profit.
    let a = result(vec![4], Vec::new());
    assert_eq!(
        a.compare(&b).tier1_mismatches,
        vec![
            FixedPriceMismatch { index: usize::MAX, expected_raw: 1, actual_raw: 0 },
            FixedPriceMismatch { index: usize::MAX - 1, expected_raw: 4, actual_raw: 0 },
        ]
    );
}

#[test]
fn numbers_of_snapshots_are_compared_where_both_have_some() {
    let mut out: Vec<SnapshotMismatch> = Vec::new();
    compare_snapshot_counts(3, 3, &mut out);
    compare_snapshot_counts(0, 3, &mut out);
    assert!(out.is_empty());
    compare_snapshot_counts(2, 3, &mut out);
    assert_eq!(out.len(), 1);
    assert_eq!(out[0].snapshot_index, usize::MAX);
    assert_eq!((out[0].field.as_str(), out[0].detail.as_str()), ("count", "a=2 vs b=3"));
}

#[test]
fn a_report_starts_empty_and_unjudged() {
    let mut report = DeterminismReport::default();
    assert_eq!(report.total_mismatches(), 0);
    assert!(!report.is_deterministic);
    report.finalize();
    assert!(report.is_deterministic);
}
