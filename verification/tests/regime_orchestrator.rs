use futures_bmad_engine::persistence::journal::{EngineEvent, EventJournal};
use futures_bmad_engine::regime::orchestrator::{
    conservative_rank, transition_record, RegimeOrchestrationConfig, RegimeOrchestrator,
};
use futures_bmad_engine::types::{RegimeState, RegimeTransition, UnixNanos};

fn test_config(
    cooldown_secs: u64,
    conservative_on_oscillation: bool,
) -> RegimeOrchestrationConfig {
    RegimeOrchestrationConfig {
        trending: vec!["trend_strategy".to_string()],
        rotational: vec!["mean_revert".to_string()],
        volatile: Vec::new(),
        unknown: Vec::new(),
        cooldown_period_secs: cooldown_secs,
        conservative_on_oscillation,
    }
}

fn ts_secs(s: u64) -> UnixNanos {
    UnixNanos::new(s.saturating_mul(1_000_000_000))
}

#[test]
fn first_transition_emits_event_with_correct_fields() {
    let mut orch = RegimeOrchestrator::new(test_config(60, true));
    let t = orch
        .on_regime_update(RegimeState::Trending, ts_secs(10))
        .expect("transition emitted");
    assert_eq!(t.from, RegimeState::Unknown);
    assert_eq!(t.to, RegimeState::Trending);
    assert_eq!(t.timestamp, ts_secs(10));
    assert_eq!(orch.current_regime(), RegimeState::Trending);
}

#[test]
fn transition_updates_enabled_strategies() {
    let mut orch = RegimeOrchestrator::new(test_config(60, true));
    orch.on_regime_update(RegimeState::Trending, ts_secs(10));
    assert!(orch.is_strategy_enabled("trend_strategy"));
    assert!(!orch.is_strategy_enabled("mean_revert"));
}

#[test]
fn same_regime_returns_none() {
    let mut orch = RegimeOrchestrator::new(test_config(60, true));
    orch.on_regime_update(RegimeState::Trending, ts_secs(10));
    let again = orch.on_regime_update(RegimeState::Trending, ts_secs(20));
    assert!(again.is_none());
}

#[test]
fn oscillation_in_cooldown_keeps_strategies_unchanged() {
    let mut orch = RegimeOrchestrator::new(test_config(300, false));
    orch.on_regime_update(RegimeState::Trending, ts_secs(10));
    let baseline = orch.enabled_strategies().clone();
    let _ = orch.on_regime_update(RegimeState::Rotational, ts_secs(60));
    assert_eq!(orch.enabled_strategies(), &baseline);
}

#[test]
fn oscillation_in_cooldown_still_returns_transition() {
    let mut orch = RegimeOrchestrator::new(test_config(300, false));
    orch.on_regime_update(RegimeState::Trending, ts_secs(10));
    let suppressed = orch.on_regime_update(RegimeState::Rotational, ts_secs(60));
    let suppressed = suppressed.expect("transition still emitted");
    assert_eq!(suppressed.from, RegimeState::Trending);
    assert_eq!(suppressed.to, RegimeState::Rotational);
    assert_eq!(orch.pending_transitions().len(), 1);
}

#[test]
fn after_cooldown_transition_is_acted_upon() {
    let mut orch = RegimeOrchestrator::new(test_config(60, false));
    orch.on_regime_update(RegimeState::Trending, ts_secs(10));
    orch.on_regime_update(RegimeState::Rotational, ts_secs(40));
    assert_eq!(orch.current_regime(), RegimeState::Trending);
    orch.on_regime_update(RegimeState::Rotational, ts_secs(80));
    assert_eq!(orch.current_regime(), RegimeState::Rotational);
    assert!(orch.is_strategy_enabled("mean_revert"));
    assert!(!orch.is_strategy_enabled("trend_strategy"));
}

#[test]
fn is_strategy_enabled_tracks_current_regime() {
    let mut orch = RegimeOrchestrator::new(test_config(0, false));
    assert!(!orch.is_strategy_enabled("trend_strategy"));
    orch.on_regime_update(RegimeState::Trending, ts_secs(1));
    assert!(orch.is_strategy_enabled("trend_strategy"));
    orch.on_regime_update(RegimeState::Rotational, ts_secs(2));
    assert!(!orch.is_strategy_enabled("trend_strategy"));
    assert!(orch.is_strategy_enabled("mean_revert"));
}

#[test]
fn disabling_strategy_has_no_access_to_order_state() {
    let mut orch = RegimeOrchestrator::new(test_config(0, false));
    orch.on_regime_update(RegimeState::Trending, ts_secs(1));
    orch.on_regime_update(RegimeState::Volatile, ts_secs(2));
    assert!(orch.enabled_strategies().is_empty());
}

#[test]
fn first_unknown_to_known_transition_is_acted_upon_and_logged() {
    let mut orch = RegimeOrchestrator::new(test_config(60, true));
    let t = orch
        .on_regime_update(RegimeState::Rotational, ts_secs(5))
        .expect("transition emitted");
    assert_eq!(t.from, RegimeState::Unknown);
    assert_eq!(t.to, RegimeState::Rotational);
    assert_eq!(orch.current_regime(), RegimeState::Rotational);
}

#[test]
fn conservative_on_oscillation_collapses_to_safer_regime() {
    let mut orch = RegimeOrchestrator::new(test_config(300, true));
    orch.on_regime_update(RegimeState::Trending, ts_secs(10));
    assert!(orch.is_strategy_enabled("trend_strategy"));
    orch.on_regime_update(RegimeState::Volatile, ts_secs(20));
    assert_eq!(orch.current_regime(), RegimeState::Volatile);
    assert!(!orch.is_strategy_enabled("trend_strategy"));
    orch.on_regime_update(RegimeState::Rotational, ts_secs(30));
    assert_eq!(orch.current_regime(), RegimeState::Volatile);
}

#[test]
fn conservative_ordering_is_correct() {
    assert_eq!(
        RegimeOrchestrator::is_more_conservative(RegimeState::Unknown, RegimeState::Volatile),
        RegimeState::Unknown
    );
    assert_eq!(
        RegimeOrchestrator::is_more_conservative(RegimeState::Rotational, RegimeState::Volatile),
        RegimeState::Volatile
    );
    assert_eq!(
        RegimeOrchestrator::is_more_conservative(RegimeState::Rotational, RegimeState::Trending),
        RegimeState::Rotational
    );
    assert_eq!(
        RegimeOrchestrator::is_more_conservative(RegimeState::Trending, RegimeState::Trending),
        RegimeState::Trending
    );
    assert!(conservative_rank(RegimeState::Unknown) > conservative_rank(RegimeState::Volatile));
}

#[test]
fn cooldown_zero_disables_suppression() {
    let mut orch = RegimeOrchestrator::new(test_config(0, false));
    orch.on_regime_update(RegimeState::Trending, ts_secs(1));
    orch.on_regime_update(RegimeState::Rotational, ts_secs(1));
    assert_eq!(orch.current_regime(), RegimeState::Rotational);
}

#[test]
fn regime_transition_to_record_round_trip() {
    let t = RegimeTransition {
        from: RegimeState::Unknown,
        to: RegimeState::Trending,
        timestamp: ts_secs(42),
    };
    let r = transition_record(&t);
    assert_eq!(r.from_regime, "Unknown");
    assert_eq!(r.to_regime, "Trending");
    assert_eq!(r.timestamp, ts_secs(42));
}

#[test]
fn cooldown_ends_on_the_second() {
    let mut orch = RegimeOrchestrator::new(test_config(60, false));
    orch.on_regime_update(RegimeState::Trending, ts_secs(10));
    orch.on_regime_update(
        RegimeState::Rotational,
        UnixNanos::new(ts_secs(70).as_nanos() - 1),
    );
    assert_eq!(orch.current_regime(), RegimeState::Trending);
    orch.on_regime_update(RegimeState::Rotational, ts_secs(70));
    assert_eq!(orch.current_regime(), RegimeState::Rotational);
    assert_eq!(orch.pending_transitions().len(), 1);
}

#[test]
fn every_change_is_journaled() {
    let (tx, mut rx) = EventJournal::channel();
    let mut orch = RegimeOrchestrator::with_journal(test_config(300, false), tx);
    orch.on_regime_update(RegimeState::Trending, ts_secs(10));
    orch.on_regime_update(RegimeState::Rotational, ts_secs(20));
    let mut targets = Vec::new();
    while let Some(event) = rx.try_recv_for_test() {
        if let EngineEvent::RegimeTransition(r) = event {
            targets.push(r.to_regime);
        }
    }
    assert_eq!(targets, vec!["Trending".to_string(), "Rotational".to_string()]);
    assert_eq!(orch.config().cooldown_period_secs, 300);
}

#[test]
fn permissions_follow_the_regime_in_force() {
    for cautious in [false, true] {
        let mut orch = RegimeOrchestrator::new(test_config(300, cautious));
        let reports = [
            (RegimeState::Trending, 10),
            (RegimeState::Volatile, 20),
            (RegimeState::Rotational, 30),
            (RegimeState::Unknown, 40),
            (RegimeState::Rotational, 900),
            (RegimeState::Trending, 901),
        ];
        for (regime, at) in reports {
            orch.on_regime_update(regime, ts_secs(at));
            let wanted = orch.config().strategies(orch.current_regime());
            assert_eq!(orch.enabled_strategies(), wanted);
        }
    }
}

#[test]
fn a_strategy_named_twice_is_enabled_once() {
    let mut config = test_config(60, true);
    config.trending =
        vec!["b".to_string(), "a".to_string(), "b".to_string(), "a".to_string()];
    let mut orch = RegimeOrchestrator::new(config);
    orch.on_regime_update(RegimeState::Trending, ts_secs(10));
    assert_eq!(orch.enabled_strategies(), &vec!["b".to_string(), "a".to_string()]);
}
