use futures_bmad_engine::order_manager::state_machine::OrderTransition;
use futures_bmad_engine::order_manager::tracker::{
    format_mismatch_journal_message, BrokerSnapshot, LocalSnapshot, MismatchKind,
    PositionMismatch, PositionTracker, ReconciliationResult, ReconciliationTrigger,
};
use futures_bmad_engine::persistence::journal::{EngineEvent, EventJournal, JournalSender};
use futures_bmad_engine::types::{
    compute_side_pnl, compute_weighted_average, BrokerPosition, FillEvent, FillType, FixedPrice,
    OrderState, RejectReason, Side, UnixNanos,
};

fn journal() -> JournalSender {
    let (tx, _rx) = EventJournal::channel();
    tx
}

fn fill(side: Side, price_raw: i64, size: u32, ft: FillType) -> FillEvent {
    FillEvent {
        order_id: 1,
        fill_price: FixedPrice::new(price_raw),
        fill_size: size,
        timestamp: UnixNanos::default(),
        side,
        decision_id: 0,
        fill_type: ft,
    }
}

fn broker(symbol_id: u32, side: Side, quantity: u32, price: i64) -> BrokerPosition {
    BrokerPosition {
        symbol_id,
        side: Some(side),
        quantity,
        avg_entry_price: FixedPrice::new(price),
    }
}

#[test]
fn buy_fill_updates_local_position() {
    let mut tracker = PositionTracker::new(journal());
    tracker.apply_fill(&fill(Side::Buy, 100, 2, FillType::Full), 1);
    let p = tracker.local_position(1).unwrap();
    assert_eq!(p.quantity, 2);
    assert_eq!(p.side, Some(Side::Buy));
    assert_eq!(p.avg_entry_price.raw(), 100);
    assert_eq!(p.realized_pnl, 0);
}

#[test]
fn sell_fill_close_computes_realized_pnl() {
    let mut tracker = PositionTracker::new(journal());
    tracker.apply_fill(&fill(Side::Buy, 100, 2, FillType::Full), 1);
    tracker.apply_fill(&fill(Side::Sell, 110, 2, FillType::Full), 1);
    let p = tracker.local_position(1).unwrap();
    assert_eq!(p.quantity, 0);
    assert_eq!(p.realized_pnl, 20);
    assert_eq!(tracker.total_realized_pnl_quarter_ticks(), 20);
}

#[test]
fn partial_close_preserves_remaining_position() {
    let mut tracker = PositionTracker::new(journal());
    tracker.apply_fill(&fill(Side::Buy, 100, 5, FillType::Full), 1);
    tracker.apply_fill(&fill(Side::Sell, 120, 2, FillType::Full), 1);
    let p = tracker.local_position(1).unwrap();
    assert_eq!(p.quantity, 3);
    assert_eq!(p.side, Some(Side::Buy));
    assert_eq!(p.avg_entry_price.raw(), 100);
    assert_eq!(p.realized_pnl, 40);
}

#[test]
fn long_position_unrealized_positive_above_entry() {
    let mut tracker = PositionTracker::new(journal());
    tracker.apply_fill(&fill(Side::Buy, 100, 3, FillType::Full), 1);
    tracker.update_unrealized_pnl_for_symbol(1, FixedPrice::new(115));
    let p = tracker.local_position(1).unwrap();
    assert_eq!(p.unrealized_pnl, 45);
}

#[test]
fn short_position_unrealized_positive_below_entry() {
    let mut tracker = PositionTracker::new(journal());
    tracker.apply_fill(&fill(Side::Sell, 200, 4, FillType::Full), 1);
    tracker.update_unrealized_pnl_for_symbol(1, FixedPrice::new(180));
    let p = tracker.local_position(1).unwrap();
    assert_eq!(p.unrealized_pnl, 80);
}

#[test]
fn reconciliation_consistent_when_matching() {
    let mut tracker = PositionTracker::new(journal());
    tracker.apply_fill(&fill(Side::Buy, 100, 2, FillType::Full), 1);
    let result = tracker.reconcile(&[broker(1, Side::Buy, 2, 100)]);
    assert!(result.is_consistent());
}

#[test]
fn reconciliation_all_flat_is_consistent() {
    let tracker = PositionTracker::new(journal());
    assert!(tracker.reconcile(&[]).is_consistent());
}

#[test]
fn reconciliation_phantom_local_detected() {
    let mut tracker = PositionTracker::new(journal());
    tracker.apply_fill(&fill(Side::Buy, 100, 2, FillType::Full), 1);
    match tracker.reconcile(&[]) {
        ReconciliationResult::Mismatch(m) => {
            assert_eq!(m.len(), 1);
            assert_eq!(m[0].symbol_id, 1);
            assert_eq!(m[0].kind, MismatchKind::PhantomLocal);
            assert!(m[0].local.is_some());
            assert!(m[0].broker.is_none());
        }
        ReconciliationResult::Consistent => panic!("expected mismatch"),
    }
}

#[test]
fn reconciliation_missed_fill_detected() {
    let tracker = PositionTracker::new(journal());
    match tracker.reconcile(&[broker(5, Side::Sell, 1, 200)]) {
        ReconciliationResult::Mismatch(m) => {
            assert_eq!(m.len(), 1);
            assert_eq!(m[0].symbol_id, 5);
            assert_eq!(m[0].kind, MismatchKind::MissedFill);
            assert!(m[0].local.is_none());
            assert!(m[0].broker.is_some());
        }
        ReconciliationResult::Consistent => panic!("expected mismatch"),
    }
}

#[test]
fn reconciliation_quantity_mismatch_detected() {
    let mut tracker = PositionTracker::new(journal());
    tracker.apply_fill(&fill(Side::Buy, 100, 3, FillType::Full), 1);
    match tracker.reconcile(&[broker(1, Side::Buy, 2, 100)]) {
        ReconciliationResult::Mismatch(m) => {
            assert_eq!(m.len(), 1);
            assert_eq!(m[0].kind, MismatchKind::SideOrQuantity);
        }
        ReconciliationResult::Consistent => panic!("expected mismatch"),
    }
}

#[test]
fn reconciliation_side_mismatch_detected() {
    let mut tracker = PositionTracker::new(journal());
    tracker.apply_fill(&fill(Side::Buy, 100, 2, FillType::Full), 1);
    match tracker.reconcile(&[broker(1, Side::Sell, 2, 100)]) {
        ReconciliationResult::Mismatch(m) => {
            assert_eq!(m[0].kind, MismatchKind::SideOrQuantity);
        }
        _ => panic!("expected mismatch"),
    }
}

#[test]
fn reconciliation_avg_entry_disagreement_detected() {
    let mut tracker = PositionTracker::new(journal());
    tracker.apply_fill(&fill(Side::Buy, 100, 2, FillType::Full), 1);
    let result = tracker.reconcile(&[broker(1, Side::Buy, 2, 99)]);
    assert!(!result.is_consistent());
}

#[test]
fn mismatch_trips_circuit_breaker_and_halts_trading() {
    let mut tracker = PositionTracker::new(journal()).with_circuit_breaker();
    tracker.apply_fill(&fill(Side::Buy, 100, 2, FillType::Full), 1);
    let view = vec![BrokerPosition::flat(1)];
    let result = tracker.reconcile_and_handle(
        &view,
        ReconciliationTrigger::Periodic,
        UnixNanos::default(),
    );
    assert!(matches!(result, ReconciliationResult::Mismatch(_)));
    assert!(tracker.trading_halted());
    let trips = tracker.take_trips();
    assert_eq!(trips.len(), 1);
    assert_eq!(trips[0].from, OrderState::Idle);
    assert_eq!(trips[0].trigger, OrderTransition::Reject);
}

#[test]
fn repeat_mismatch_does_not_refire_breaker() {
    let mut tracker = PositionTracker::new(journal()).with_circuit_breaker();
    tracker.apply_fill(&fill(Side::Buy, 100, 2, FillType::Full), 1);
    let view = vec![BrokerPosition::flat(1)];
    for _ in 0..3 {
        tracker.reconcile_and_handle(
            &view,
            ReconciliationTrigger::Periodic,
            UnixNanos::default(),
        );
    }
    assert_eq!(tracker.take_trips().len(), 1);
}

#[test]
fn mismatch_does_not_silently_correct_local_state() {
    let mut tracker = PositionTracker::new(journal());
    tracker.apply_fill(&fill(Side::Buy, 100, 2, FillType::Full), 1);
    let view = vec![BrokerPosition::flat(1)];
    let _ = tracker.reconcile_and_handle(
        &view,
        ReconciliationTrigger::Periodic,
        UnixNanos::default(),
    );
    let p = tracker.local_position(1).unwrap();
    assert_eq!(p.quantity, 2);
    assert_eq!(p.side, Some(Side::Buy));
    assert_eq!(p.avg_entry_price.raw(), 100);
}

#[test]
fn reconciliation_trigger_strings() {
    assert_eq!(ReconciliationTrigger::Startup.as_str(), "startup");
    assert_eq!(ReconciliationTrigger::Reconnection.as_str(), "reconnection");
    assert_eq!(ReconciliationTrigger::Periodic.as_str(), "periodic");
}

#[test]
fn multi_symbol_reconciliation_reports_only_offenders() {
    let mut tracker = PositionTracker::new(journal());
    tracker.apply_fill(&fill(Side::Buy, 100, 2, FillType::Full), 1);
    tracker.apply_fill(&fill(Side::Sell, 200, 1, FillType::Full), 2);
    match tracker.reconcile(&[broker(1, Side::Buy, 2, 100)]) {
        ReconciliationResult::Mismatch(m) => {
            assert_eq!(m.len(), 1);
            assert_eq!(m[0].symbol_id, 2);
            assert_eq!(m[0].kind, MismatchKind::PhantomLocal);
        }
        _ => panic!("expected mismatch"),
    }
}

#[test]
fn consistent_reconciliation_does_not_halt_trading() {
    let mut tracker = PositionTracker::new(journal()).with_circuit_breaker();
    tracker.apply_fill(&fill(Side::Buy, 100, 2, FillType::Full), 1);
    tracker.reconcile_and_handle(
        &[broker(1, Side::Buy, 2, 100)],
        ReconciliationTrigger::Startup,
        UnixNanos::default(),
    );
    assert!(!tracker.trading_halted());
    assert!(tracker.take_trips().is_empty());
}

#[test]
fn reopen_after_close_starts_fresh_leg() {
    let mut tracker = PositionTracker::new(journal());
    tracker.apply_fill(&fill(Side::Buy, 100, 2, FillType::Full), 1);
    tracker.apply_fill(&fill(Side::Sell, 110, 2, FillType::Full), 1);
    tracker.apply_fill(&fill(Side::Buy, 105, 1, FillType::Full), 1);
    let p = tracker.local_position(1).unwrap();
    assert_eq!(p.quantity, 1);
    assert_eq!(p.side, Some(Side::Buy));
    assert_eq!(p.avg_entry_price.raw(), 105);
    assert_eq!(p.realized_pnl, 20);
}

#[test]
fn iter_includes_realized_pnl_history() {
    let mut tracker = PositionTracker::new(journal());
    tracker.apply_fill(&fill(Side::Buy, 100, 2, FillType::Full), 1);
    tracker.apply_fill(&fill(Side::Sell, 110, 2, FillType::Full), 1);
    let entries = tracker.iter();
    assert_eq!(entries.len(), 1);
    let (sym, pos) = entries[0];
    assert_eq!(sym, 1);
    assert_eq!(pos.realized_pnl, 20);
    assert_eq!(tracker.open_count(), 0);
}

#[test]
fn invalid_transition_seam_is_used_for_breaker() {
    let _ = OrderState::Idle;
}

#[test]
fn rejected_fill_moves_no_position() {
    let mut tracker = PositionTracker::new(journal());
    let reason = RejectReason::ExchangeReject;
    tracker.apply_fill(&fill(Side::Buy, 100, 2, FillType::Rejected { reason }), 1);
    assert!(tracker.reconcile(&[]).is_consistent());
    assert_eq!(tracker.open_count(), 0);
}

#[test]
fn opposite_fill_beyond_the_position_flips_it() {
    let mut tracker = PositionTracker::new(journal());
    tracker.apply_fill(&fill(Side::Buy, 100, 2, FillType::Full), 1);
    tracker.apply_fill(&fill(Side::Sell, 110, 5, FillType::Full), 1);
    let p = tracker.local_position(1).unwrap();
    assert_eq!((p.side, p.quantity, p.avg_entry_price.raw()), (Some(Side::Sell), 3, 110));
    assert_eq!(p.realized_pnl, 20);
}

#[test]
fn totals_saturate_over_symbols() {
    let mut tracker = PositionTracker::new(journal());
    tracker.apply_fill(&fill(Side::Buy, 100, 2, FillType::Full), 1);
    tracker.apply_fill(&fill(Side::Sell, 110, 2, FillType::Full), 1);
    tracker.apply_fill(&fill(Side::Sell, 100, 1, FillType::Full), 2);
    tracker.apply_fill(&fill(Side::Buy, 105, 1, FillType::Full), 2);
    assert_eq!(tracker.total_realized_pnl_quarter_ticks(), 15);
}

#[test]
fn mismatch_report_names_both_views() {
    let mismatches = vec![
        PositionMismatch {
            symbol_id: 1,
            kind: MismatchKind::SideOrQuantity,
            local: Some(LocalSnapshot {
                side: Some(Side::Buy),
                quantity: 2,
                avg_entry_price: FixedPrice::new(100),
            }),
            broker: Some(BrokerSnapshot {
                side: Some(Side::Sell),
                quantity: 1,
                avg_entry_price: FixedPrice::new(-4),
            }),
        },
        PositionMismatch {
            symbol_id: 2,
            kind: MismatchKind::MissedFill,
            local: None,
            broker: Some(BrokerSnapshot {
                side: None,
                quantity: 1,
                avg_entry_price: FixedPrice::new(7),
            }),
        },
    ];
    assert_eq!(
        format_mismatch_journal_message(ReconciliationTrigger::Startup, &mismatches),
        "reconciliation MISMATCH (startup); count=2; trading halted (NFR16)\
         \n  symbol=1 kind=SideOrQuantity local=side=Some(Buy) qty=2 avg=100 broker=side=Some(Sell) qty=1 avg=-4\
         \n  symbol=2 kind=MissedFill local=flat broker=side=None qty=1 avg=7"
    );
}

#[test]
fn every_reconciliation_round_is_journaled() {
    let (tx, mut rx) = EventJournal::channel();
    let mut tracker = PositionTracker::new(tx);
    tracker.reconcile_and_handle(&[], ReconciliationTrigger::Startup, UnixNanos::new(9));
    match rx.try_recv_for_test() {
        Some(EngineEvent::SystemEvent(record)) => {
            assert_eq!(record.timestamp, UnixNanos::new(9));
            assert_eq!(record.category, "reconciliation");
        }
        other => panic!("expected SystemEvent, got {other:?}"),
    }
}

#[test]
fn pnl_and_average_formulas() {
    let price = FixedPrice::new;
    assert_eq!(compute_side_pnl(Side::Buy, price(100), price(110), 3), 30);
    assert_eq!(compute_side_pnl(Side::Sell, price(100), price(110), 3), -30);
    assert_eq!(compute_side_pnl(Side::Buy, price(i64::MIN), price(i64::MAX), 2), i64::MAX);
    assert_eq!(compute_weighted_average(price(100), 1, price(200), 3), price(175));
}

#[test]
fn flat_positions_are_listed_only_for_what_they_realized() {
    let mut tracker = PositionTracker::new(journal());
    tracker.apply_fill(&fill(Side::Buy, 100, 2, FillType::Full), 1);
    tracker.apply_fill(&fill(Side::Sell, 100, 2, FillType::Full), 1);
    assert!(tracker.iter().is_empty());
    tracker.apply_fill(&fill(Side::Buy, 100, 2, FillType::Full), 2);
    tracker.apply_fill(&fill(Side::Sell, 101, 2, FillType::Full), 2);
    tracker.update_unrealized_pnl_for_symbol(2, FixedPrice::new(150));
    let entries = tracker.iter();
    assert_eq!(entries.len(), 1);
    assert_eq!((entries[0].1.realized_pnl, entries[0].1.unrealized_pnl), (2, 0));
}
