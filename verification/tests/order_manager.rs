use futures_bmad_engine::order_manager::state_machine::{InvalidTransition, OrderTransition};
use futures_bmad_engine::order_manager::wal::{encode_row, recover_pending, WalOp};
use futures_bmad_engine::order_manager::{
    BrokerOrderStatus, FillOutcome, OrderManager, ResolveOutcome, SubmitError, TrackedOrder,
};
use futures_bmad_engine::persistence::journal::{
    EngineEvent, EventJournal, JournalReceiver, JournalSender,
};
use futures_bmad_engine::queue::{FillQueue, OrderQueue};
use futures_bmad_engine::types::{
    FillEvent, FillType, FixedPrice, OrderEvent, OrderState, OrderType, RejectReason, Side,
    UnixNanos,
};

fn make_tracked(order_id: u64, decision_id: u64, qty: u32) -> TrackedOrder {
    let event = OrderEvent {
        order_id,
        symbol_id: 1,
        side: Side::Buy,
        quantity: qty,
        order_type: OrderType::Market,
        decision_id,
        timestamp: UnixNanos::new(1),
    };
    let mut t = TrackedOrder::from_submission(&event);
    t.state = OrderState::Confirmed;
    t
}

fn make_fill(order_id: u64, decision_id: u64, fill_type: FillType, size: u32) -> FillEvent {
    FillEvent {
        order_id,
        fill_price: FixedPrice::new(17_929),
        fill_size: size,
        timestamp: UnixNanos::new(2),
        side: Side::Buy,
        decision_id,
        fill_type,
    }
}

fn journal() -> JournalSender {
    let (tx, _rx) = EventJournal::channel();
    tx
}

fn orders() -> OrderQueue {
    OrderQueue::with_capacity(16)
}

fn make_event(order_id: u64, decision_id: u64, qty: u32) -> OrderEvent {
    OrderEvent {
        order_id,
        symbol_id: 1,
        side: Side::Buy,
        quantity: qty,
        order_type: OrderType::Market,
        decision_id,
        timestamp: UnixNanos::new(1_700_000_000_000_000_000),
    }
}

fn receiver_drain(rx: &mut JournalReceiver) -> Vec<EngineEvent> {
    let mut out = Vec::new();
    for _ in 0..50 {
        match rx.try_recv_for_test() {
            Some(evt) => out.push(evt),
            None => break,
        }
    }
    out
}

/// A manager whose single order is being reconciled.
fn reconciling(bracket_id: Option<u64>, qty: u32) -> OrderManager {
    let mut mgr = OrderManager::with_wal(journal());
    let mut evt = make_event(1, 11, qty);
    evt.timestamp = UnixNanos::new(0);
    mgr.submit_order(evt, &mut orders(), bracket_id, Ok(())).unwrap();
    mgr.tick(UnixNanos::new(6_000_000_000));
    mgr.begin_recon(1, UnixNanos::new(6_500_000_000)).unwrap();
    mgr
}

#[test]
fn full_fill_transitions_to_filled() {
    let mut mgr = OrderManager::new(journal());
    mgr.track(make_tracked(1, 11, 3));
    let outcome = mgr.apply_fill(&make_fill(1, 11, FillType::Full, 3));
    assert!(matches!(outcome, FillOutcome::Filled { order_id: 1, decision_id: 11 }));
    assert!(mgr.get(1).is_none());
}

#[test]
fn partial_fill_records_remaining() {
    let mut mgr = OrderManager::new(journal());
    mgr.track(make_tracked(2, 22, 5));
    let outcome = mgr.apply_fill(&make_fill(2, 22, FillType::Partial { remaining: 3 }, 2));
    assert!(matches!(
        outcome,
        FillOutcome::Partial { order_id: 2, decision_id: 22, remaining: 3 }
    ));
    let order = mgr.get(2).unwrap();
    assert_eq!(order.state, OrderState::PartialFill);
    assert_eq!(order.remaining_quantity, 3);

    mgr.apply_fill(&make_fill(2, 22, FillType::Partial { remaining: 1 }, 2));
    assert_eq!(mgr.get(2).unwrap().remaining_quantity, 1);

    let final_outcome = mgr.apply_fill(&make_fill(2, 22, FillType::Full, 1));
    assert!(matches!(final_outcome, FillOutcome::Filled { .. }));
    assert!(mgr.get(2).is_none());
}

#[test]
fn rejection_preserves_reason() {
    let mut mgr = OrderManager::new(journal());
    let mut order = make_tracked(3, 33, 1);
    order.state = OrderState::Submitted;
    mgr.track(order);
    let outcome = mgr.apply_fill(&make_fill(
        3,
        33,
        FillType::Rejected { reason: RejectReason::InsufficientMargin },
        0,
    ));
    assert!(matches!(
        outcome,
        FillOutcome::Rejected {
            order_id: 3,
            decision_id: 33,
            reason: RejectReason::InsufficientMargin
        }
    ));
    assert!(mgr.get(3).is_none());
}

#[test]
fn decision_id_propagates_to_journal_record() {
    let (sender, mut receiver) = EventJournal::channel();
    let mut mgr = OrderManager::new(sender);
    let event = OrderEvent {
        order_id: 7,
        symbol_id: 1,
        side: Side::Buy,
        quantity: 1,
        order_type: OrderType::Market,
        decision_id: 4242,
        timestamp: UnixNanos::new(100),
    };
    let mut order = TrackedOrder::from_submission(&event);
    order.state = OrderState::Confirmed;
    mgr.track(order);
    mgr.apply_fill(&make_fill(7, 4242, FillType::Full, 1));

    let raw = receiver_drain(&mut receiver);
    assert_eq!(raw.len(), 1);
    match &raw[0] {
        EngineEvent::OrderStateChange(rec) => {
            assert_eq!(rec.order_id, 7);
            assert_eq!(rec.decision_id, Some(4242));
            assert_eq!(rec.from_state, "Confirmed");
            assert_eq!(rec.to_state, "Filled");
        }
        other => panic!("expected OrderStateChange, got {other:?}"),
    }
}

#[test]
fn orphan_fill_is_logged_not_panicked() {
    let mut mgr = OrderManager::new(journal());
    let outcome = mgr.apply_fill(&make_fill(999, 0, FillType::Full, 1));
    assert!(matches!(outcome, FillOutcome::Orphan { order_id: 999 }));
}

#[test]
fn process_pending_fills_drains_queue() {
    let mut fills = FillQueue::with_capacity(16);
    let mut mgr = OrderManager::new(journal());
    mgr.track(make_tracked(10, 100, 2));
    assert!(fills.try_push(make_fill(10, 100, FillType::Partial { remaining: 1 }, 1)));
    assert!(fills.try_push(make_fill(10, 100, FillType::Full, 1)));
    let processed = mgr.process_pending_fills(&mut fills);
    assert_eq!(processed, 2);
    assert!(fills.is_empty());
    assert!(mgr.get(10).is_none(), "terminal state should drop tracking");
}

#[test]
fn over_fill_is_rejected() {
    let mut mgr = OrderManager::new(journal());
    mgr.track(make_tracked(1, 1, 2));
    let outcome = mgr.apply_fill(&make_fill(1, 1, FillType::Full, 999));
    assert!(matches!(outcome, FillOutcome::InvalidFillSize { .. }));
    assert!(mgr.get(1).is_some());
    assert_eq!(mgr.get(1).unwrap().remaining_quantity, 2);
}

#[test]
fn zero_size_full_fill_is_rejected() {
    let mut mgr = OrderManager::new(journal());
    mgr.track(make_tracked(1, 1, 2));
    let outcome = mgr.apply_fill(&make_fill(1, 1, FillType::Full, 0));
    assert!(matches!(outcome, FillOutcome::InvalidFillSize { .. }));
    assert_eq!(mgr.get(1).unwrap().state, OrderState::Confirmed);
}

#[test]
fn partial_fill_must_leave_less() {
    let mut mgr = OrderManager::new(journal());
    mgr.track(make_tracked(1, 1, 2));
    let outcome = mgr.apply_fill(&make_fill(1, 1, FillType::Partial { remaining: 2 }, 1));
    assert_eq!(
        outcome,
        FillOutcome::InvalidFillSize { order_id: 1, fill_size: 1, remaining_quantity: 2 }
    );
    let outcome = mgr.apply_fill(&make_fill(1, 1, FillType::Partial { remaining: 1 }, 0));
    assert!(matches!(outcome, FillOutcome::InvalidFillSize { .. }));
}

#[test]
fn partial_then_rejected_terminates_order() {
    let mut mgr = OrderManager::new(journal());
    let mut queue = orders();
    mgr.submit_order(make_event(1, 11, 3), &mut queue, None, Ok(())).unwrap();
    let _ = queue.try_pop();

    let p = mgr.apply_fill(&make_fill(1, 11, FillType::Partial { remaining: 2 }, 1));
    assert!(matches!(p, FillOutcome::Partial { .. }));
    assert_eq!(mgr.get(1).unwrap().state, OrderState::PartialFill);

    let r = mgr.apply_fill(&make_fill(
        1,
        11,
        FillType::Rejected { reason: RejectReason::ExchangeReject },
        0,
    ));
    assert!(matches!(r, FillOutcome::Rejected { .. }));
    assert!(mgr.get(1).is_none());
    assert!(mgr.state_machine(1).is_none());
}

#[test]
fn wal_write_before_submit_recovers_pending_order() {
    let mut mgr = OrderManager::with_wal(journal());
    let event = make_event(42, 4242, 3);
    let row = mgr.prepare_submission(&event, Some(99)).unwrap().expect("a row to write");
    let stored = encode_row(&row);
    mgr.submit_order(event, &mut orders(), Some(99), Ok(())).unwrap();

    let pending = recover_pending(&vec![stored]).unwrap();
    assert_eq!(pending.len(), 1);
    assert_eq!(pending[0].order_id, 42);
    assert_eq!(pending[0].decision_id, 4242);
    assert_eq!(pending[0].state, OrderState::Submitted);
    assert_eq!(pending[0].bracket_id, Some(99));
}

#[test]
fn failed_wal_write_keeps_the_order_back() {
    let mut mgr = OrderManager::with_wal(journal());
    let mut queue = orders();
    let err = mgr
        .submit_order(make_event(1, 1, 1), &mut queue, None, Err("disk full".to_string()))
        .unwrap_err();
    assert!(matches!(&err, SubmitError::WalWriteFailed(text) if text == "disk full"));
    assert_eq!(err.describe(), "wal write failed: disk full");
    assert!(queue.is_empty());
    assert!(mgr.get(1).is_none());
    assert!(mgr.take_wal_ops().is_empty());
}

#[test]
fn without_a_log_its_outcome_does_not_matter() {
    let mut mgr = OrderManager::new(journal());
    let mut queue = orders();
    assert!(mgr.prepare_submission(&make_event(1, 1, 1), None).unwrap().is_none());
    mgr.submit_order(make_event(1, 1, 1), &mut queue, None, Err("no log".to_string())).unwrap();
    assert_eq!(queue.len(), 1);
}

#[test]
fn full_queue_closes_the_log_row() {
    let mut mgr = OrderManager::with_wal(journal());
    let mut queue = OrderQueue::with_capacity(0);
    let err = mgr.submit_order(make_event(5, 1, 1), &mut queue, None, Ok(())).unwrap_err();
    assert!(matches!(err, SubmitError::QueueFull));
    assert!(mgr.get(5).is_none() && mgr.state_machine(5).is_none());
    assert_eq!(
        mgr.take_wal_ops(),
        vec![WalOp::MarkResolved {
            order_id: 5,
            final_state: OrderState::Rejected,
            failure_at: None
        }]
    );
    assert!(mgr.take_wal_ops().is_empty());
}

#[test]
fn submitted_order_transitions_to_uncertain_on_timeout() {
    let mut mgr = OrderManager::with_wal(journal());
    let mut evt = make_event(1, 11, 1);
    evt.timestamp = UnixNanos::new(0);
    mgr.submit_order(evt, &mut orders(), None, Ok(())).unwrap();
    assert_eq!(mgr.get(1).unwrap().state, OrderState::Submitted);
    assert!(!mgr.submissions_paused());

    mgr.tick(UnixNanos::new(5_100_000_000));
    assert_eq!(mgr.state_machine(1).unwrap().state(), OrderState::Uncertain);
    assert!(mgr.submissions_paused());
    assert_eq!(
        mgr.take_wal_ops(),
        vec![WalOp::UpdateState { order_id: 1, new_state: OrderState::Uncertain }]
    );
}

#[test]
fn timeout_is_exclusive_and_adjustable() {
    let mut mgr = OrderManager::new(journal()).with_uncertain_timeout(10);
    let mut evt = make_event(1, 11, 1);
    evt.timestamp = UnixNanos::new(100);
    mgr.submit_order(evt, &mut orders(), None, Ok(())).unwrap();
    mgr.tick(UnixNanos::new(110));
    assert!(!mgr.submissions_paused());
    mgr.tick(UnixNanos::new(111));
    assert!(mgr.submissions_paused());
}

#[test]
fn submissions_paused_rejects_new_submit_order() {
    let mut mgr = OrderManager::with_wal(journal());
    let mut queue = orders();
    let mut evt = make_event(1, 11, 1);
    evt.timestamp = UnixNanos::new(0);
    mgr.submit_order(evt, &mut queue, None, Ok(())).unwrap();
    mgr.tick(UnixNanos::new(6_000_000_000));
    assert!(mgr.submissions_paused());

    let evt2 = make_event(2, 22, 1);
    assert!(matches!(
        mgr.prepare_submission(&evt2, None),
        Err(SubmitError::SubmissionsPaused)
    ));
    let result = mgr.submit_order(evt2, &mut queue, None, Ok(()));
    assert!(matches!(result, Err(SubmitError::SubmissionsPaused)));
    assert_eq!(queue.len(), 1);
}

#[test]
fn resolve_filled_with_bracket_does_not_request_flatten() {
    let mut mgr = reconciling(Some(7), 1);
    let outcome = mgr.resolve_uncertain(
        1,
        BrokerOrderStatus::Filled,
        Some(Side::Buy),
        UnixNanos::new(7_000_000_000),
    );
    assert!(matches!(outcome, ResolveOutcome::FilledBracketProtects));
    assert!(mgr.state_machine(1).is_none());
    assert!(!mgr.submissions_paused());
}

#[test]
fn resolve_filled_without_bracket_requests_flatten() {
    let mut mgr = reconciling(None, 3);
    let outcome = mgr.resolve_uncertain(
        1,
        BrokerOrderStatus::Filled,
        Some(Side::Buy),
        UnixNanos::new(7_000_000_000),
    );
    match outcome {
        ResolveOutcome::FilledFlattenRequired { symbol_id, side, quantity } => {
            assert_eq!(symbol_id, 1);
            assert_eq!(side, Side::Sell);
            assert_eq!(quantity, 3);
        }
        other => panic!("expected FilledFlattenRequired, got {other:?}"),
    }
    assert!(!mgr.submissions_paused());
}

#[test]
fn unknown_side_tells_the_breaker_and_the_journal() {
    let (sender, mut receiver) = EventJournal::channel();
    let mut mgr = OrderManager::with_wal(sender).with_circuit_breaker();
    let mut evt = make_event(1, 11, 3);
    evt.timestamp = UnixNanos::new(0);
    mgr.submit_order(evt, &mut orders(), None, Ok(())).unwrap();
    mgr.tick(UnixNanos::new(6_000_000_000));
    mgr.begin_recon(1, UnixNanos::new(6_500_000_000)).unwrap();
    receiver_drain(&mut receiver);

    let outcome = mgr.resolve_uncertain(
        1,
        BrokerOrderStatus::Filled,
        None,
        UnixNanos::new(7_000_000_000),
    );
    assert_eq!(
        outcome,
        ResolveOutcome::FilledFlattenSideUnknown { order_id: 1, symbol_id: 1 }
    );
    assert_eq!(
        mgr.take_trips(),
        vec![InvalidTransition {
            from: OrderState::PendingRecon,
            trigger: OrderTransition::Resolve
        }]
    );
    let events = receiver_drain(&mut receiver);
    assert_eq!(events.len(), 2);
    match &events[1] {
        EngineEvent::SystemEvent(rec) => {
            assert_eq!(rec.category, "order_manager");
            assert_eq!(
                rec.message,
                "flatten side unknown for order 1 (symbol=1) on resolved Filled — escalated to circuit breaker"
            );
        }
        other => panic!("expected SystemEvent, got {other:?}"),
    }
}

#[test]
fn resolve_rejected_resumes_submissions() {
    let mut mgr = reconciling(None, 1);
    assert!(mgr.submissions_paused());
    let outcome = mgr.resolve_uncertain(
        1,
        BrokerOrderStatus::Rejected,
        Some(Side::Buy),
        UnixNanos::new(7_000_000_000),
    );
    assert!(matches!(outcome, ResolveOutcome::RejectedNoPosition));
    assert!(!mgr.submissions_paused());
    assert!(mgr.state_machine(1).is_none());
}

#[test]
fn pending_answer_changes_nothing() {
    let mut mgr = reconciling(None, 1);
    let outcome = mgr.resolve_uncertain(
        1,
        BrokerOrderStatus::StillPending,
        None,
        UnixNanos::new(7_000_000_000),
    );
    assert_eq!(outcome, ResolveOutcome::KeepPolling);
    assert!(mgr.submissions_paused());
    assert_eq!(
        mgr.resolve_uncertain(9, BrokerOrderStatus::Filled, None, UnixNanos::new(1)),
        ResolveOutcome::NotApplicable
    );
}

#[test]
fn submissions_stay_paused_until_the_last_answer() {
    let mut mgr = OrderManager::new(journal());
    let mut queue = orders();
    for id in [1u64, 2] {
        let mut evt = make_event(id, id, 1);
        evt.timestamp = UnixNanos::new(0);
        mgr.submit_order(evt, &mut queue, None, Ok(())).unwrap();
    }
    mgr.tick(UnixNanos::new(6_000_000_000));
    for id in [1u64, 2] {
        mgr.begin_recon(id, UnixNanos::new(6_500_000_000)).unwrap();
    }
    mgr.resolve_uncertain(1, BrokerOrderStatus::Unknown, None, UnixNanos::new(7_000_000_000));
    assert!(mgr.submissions_paused());
    mgr.resolve_uncertain(2, BrokerOrderStatus::Unknown, None, UnixNanos::new(7_000_000_000));
    assert!(!mgr.submissions_paused());
}

#[test]
fn pending_recon_escalates_to_circuit_breaker_after_30s() {
    let mut mgr = OrderManager::with_wal(journal()).with_circuit_breaker();
    let mut evt = make_event(1, 11, 1);
    evt.timestamp = UnixNanos::new(0);
    mgr.submit_order(evt, &mut orders(), None, Ok(())).unwrap();
    mgr.tick(UnixNanos::new(6_000_000_000));
    mgr.begin_recon(1, UnixNanos::new(6_500_000_000)).unwrap();
    assert!(mgr.take_trips().is_empty());
    mgr.tick(UnixNanos::new(36_500_000_001));
    assert_eq!(mgr.take_trips().len(), 1);
    // Once told, the breaker is not told again, and submissions stay paused.
    mgr.tick(UnixNanos::new(99_000_000_000));
    assert!(mgr.take_trips().is_empty());
    assert!(mgr.submissions_paused());
}

#[test]
fn duplicate_order_id_is_rejected() {
    let mut mgr = OrderManager::new(journal());
    let mut queue = orders();
    let evt = make_event(1, 1, 1);
    mgr.submit_order(evt, &mut queue, None, Ok(())).unwrap();
    let result = mgr.submit_order(evt, &mut queue, None, Ok(()));
    assert!(matches!(result, Err(SubmitError::DuplicateOrderId(1))));
    assert_eq!(mgr.tracked_count(), 1);
}

#[test]
fn fill_of_an_uncertain_order_is_refused() {
    let mut mgr = OrderManager::new(journal()).with_circuit_breaker();
    let mut evt = make_event(1, 11, 1);
    evt.timestamp = UnixNanos::new(0);
    mgr.submit_order(evt, &mut orders(), None, Ok(())).unwrap();
    mgr.tick(UnixNanos::new(6_000_000_000));
    let outcome = mgr.apply_fill(&make_fill(1, 11, FillType::Full, 1));
    assert_eq!(
        outcome,
        FillOutcome::InvalidTransition {
            order_id: 1,
            from: OrderState::Uncertain,
            to: OrderState::Filled
        }
    );
    assert_eq!(mgr.state_machine(1).unwrap().state(), OrderState::Uncertain);
    assert_eq!(mgr.take_trips().len(), 1);
}

#[test]
fn first_fill_confirms_and_is_journaled() {
    let (sender, mut receiver) = EventJournal::channel();
    let mut mgr = OrderManager::with_wal(sender);
    mgr.submit_order(make_event(1, 11, 2), &mut orders(), None, Ok(())).unwrap();
    mgr.apply_fill(&make_fill(1, 11, FillType::Full, 2));
    let steps: Vec<(String, String)> = receiver_drain(&mut receiver)
        .into_iter()
        .map(|e| match e {
            EngineEvent::OrderStateChange(r) => (r.from_state, r.to_state),
            other => panic!("unexpected {other:?}"),
        })
        .collect();
    let expected: Vec<(String, String)> =
        [("Idle", "Submitted"), ("Submitted", "Confirmed"), ("Confirmed", "Filled")]
            .iter()
            .map(|(a, b)| (a.to_string(), b.to_string()))
            .collect();
    assert_eq!(steps, expected);
    assert_eq!(
        mgr.take_wal_ops(),
        vec![WalOp::MarkResolved {
            order_id: 1,
            final_state: OrderState::Filled,
            failure_at: Some(UnixNanos::new(2))
        }]
    );
}

#[test]
fn log_failures_are_journaled() {
    let (sender, mut receiver) = EventJournal::channel();
    let mut mgr = OrderManager::with_wal(sender);
    mgr.report_wal_failure(12, OrderState::Filled, UnixNanos::new(5), "locked");
    match receiver.try_recv_for_test() {
        Some(EngineEvent::SystemEvent(rec)) => {
            assert_eq!(rec.category, "order_wal");
            assert_eq!(
                rec.message,
                "wal mark_resolved failed for order 12 (final=Filled): locked — recovery will reconcile via broker query"
            );
        }
        other => panic!("expected SystemEvent, got {other:?}"),
    }
}

#[test]
fn begin_recon_needs_an_uncertain_order() {
    let mut mgr = OrderManager::new(journal());
    assert_eq!(
        mgr.begin_recon(1, UnixNanos::new(1)),
        Err(InvalidTransition {
            from: OrderState::Idle,
            trigger: OrderTransition::BeginRecon
        })
    );
    mgr.submit_order(make_event(1, 1, 1), &mut orders(), None, Ok(())).unwrap();
    assert_eq!(
        mgr.begin_recon(1, UnixNanos::new(1)).unwrap_err().from,
        OrderState::Submitted
    );
}

#[test]
fn confirmation_is_noted_once() {
    let mut order = TrackedOrder::from_submission(&make_event(1, 1, 1));
    assert!(order.mark_confirmed());
    assert_eq!(order.state, OrderState::Confirmed);
    assert!(!order.mark_confirmed());
}

#[test]
fn fills_touch_their_own_order_only() {
    let mut mgr = OrderManager::new(journal());
    mgr.track(make_tracked(1, 1, 5));
    mgr.track(make_tracked(2, 2, 5));
    let other = *mgr.get(2).unwrap();
    mgr.apply_fill(&make_fill(1, 1, FillType::Partial { remaining: 3 }, 2));
    assert_eq!(*mgr.get(2).unwrap(), other);
    assert_eq!(mgr.get(1).unwrap().remaining_quantity, 3);
}

#[test]
fn repeated_final_fill_is_an_orphan() {
    let mut mgr = OrderManager::new(journal());
    mgr.track(make_tracked(1, 1, 2));
    let fill = make_fill(1, 1, FillType::Full, 2);
    assert!(matches!(mgr.apply_fill(&fill), FillOutcome::Filled { .. }));
    assert_eq!(mgr.apply_fill(&fill), FillOutcome::Orphan { order_id: 1 });
}

#[test]
fn a_closed_order_is_no_longer_counted() {
    let mut mgr = OrderManager::new(journal());
    mgr.track(make_tracked(1, 11, 3));
    mgr.track(make_tracked(2, 22, 5));
    assert_eq!(mgr.tracked_count(), 2);
    mgr.apply_fill(&make_fill(1, 11, FillType::Full, 3));
    assert_eq!(mgr.tracked_count(), 1);
    mgr.apply_fill(&make_fill(2, 22, FillType::Partial { remaining: 3 }, 2));
    let later = make_fill(1, 11, FillType::Partial { remaining: 1 }, 1);
    assert!(matches!(mgr.apply_fill(&later), FillOutcome::Orphan { order_id: 1 }));
    assert_eq!(mgr.tracked_count(), 1);
}
