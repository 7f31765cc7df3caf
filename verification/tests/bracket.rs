use futures_bmad_engine::order_manager::bracket::{
    BracketManager, BracketSubmissionError, FlattenContext, FlattenOutcome,
};
use futures_bmad_engine::persistence::journal::{EngineEvent, EventJournal, JournalSender};
use futures_bmad_engine::queue::{OrderQueue, ORDER_FILL_QUEUE_CAPACITY};
use futures_bmad_engine::types::{
    BracketOrder, BracketState, BracketStateError, FillEvent, FillType, FixedPrice, OrderEvent,
    OrderKind, OrderParams, OrderType, RejectReason, Side, UnixNanos,
};

fn journal() -> JournalSender {
    let (tx, _rx) = EventJournal::channel();
    tx
}

fn queue() -> OrderQueue {
    OrderQueue::with_capacity(ORDER_FILL_QUEUE_CAPACITY)
}

fn leg(side: Side, quantity: u32, order_type: OrderKind, price: Option<i64>) -> OrderParams {
    OrderParams { symbol_id: 1, side, quantity, order_type, price: price.map(FixedPrice::new) }
}

fn bracket_of(
    bracket_id: u64,
    decision_id: u64,
    side: Side,
    quantity: u32,
    take_profit: i64,
    stop_loss: i64,
) -> BracketOrder {
    let exit = side.opposite();
    BracketOrder {
        bracket_id,
        decision_id,
        entry: leg(side, quantity, OrderKind::Market, None),
        take_profit: leg(exit, quantity, OrderKind::Limit, Some(take_profit)),
        stop_loss: leg(exit, quantity, OrderKind::Stop, Some(stop_loss)),
        state: BracketState::NoBracket,
    }
}

fn sample_bracket(bracket_id: u64, decision_id: u64, side: Side) -> BracketOrder {
    bracket_of(bracket_id, decision_id, side, 2, 200, 50)
}

fn entry_fill(order_id: u64, price: i64, size: u32, side: Side) -> FillEvent {
    FillEvent {
        order_id,
        fill_price: FixedPrice::new(price),
        fill_size: size,
        timestamp: UnixNanos::new(2),
        side,
        decision_id: 7,
        fill_type: FillType::Full,
    }
}

fn exit_fill(order_id: u64, price: i64, size: u32, side: Side, decision_id: u64) -> FillEvent {
    FillEvent {
        order_id,
        fill_price: FixedPrice::new(price),
        fill_size: size,
        timestamp: UnixNanos::new(5),
        side,
        decision_id,
        fill_type: FillType::Full,
    }
}

fn saturate(queue: &mut OrderQueue) {
    for i in 0..ORDER_FILL_QUEUE_CAPACITY {
        assert!(queue.try_push(OrderEvent {
            order_id: 10_000 + i as u64,
            symbol_id: 99,
            side: Side::Buy,
            quantity: 1,
            order_type: OrderType::Market,
            decision_id: 0,
            timestamp: UnixNanos::new(0),
        }));
    }
}

#[test]
fn bracket_full_lifecycle_to_full_state() {
    let mut orders = queue();
    let mut mgr = BracketManager::new(journal());

    let bracket = sample_bracket(1, 7, Side::Buy);
    let entry_order_id = mgr.submit_entry(bracket, &mut orders, UnixNanos::new(1)).unwrap();
    let entry_evt = orders.try_pop().expect("entry order should be queued");
    assert_eq!(entry_evt.order_id, entry_order_id);
    assert!(matches!(entry_evt.order_type, OrderType::Market));

    let outcome = mgr
        .on_entry_fill(&entry_fill(entry_order_id, 100, 2, Side::Buy), &mut orders)
        .expect("entry fill should drive bracket forward");
    assert!(matches!(outcome, FlattenContext::EntrySubmittedStop));
    assert_eq!(mgr.get(1).unwrap().state, BracketState::EntryOnly);
    let sl_evt = orders.try_pop().expect("SL should be queued");
    assert!(matches!(sl_evt.order_type, OrderType::Stop { .. }));

    let outcome = mgr
        .on_stop_confirmed(1, &mut orders, UnixNanos::new(3))
        .expect("stop confirmation should drive bracket forward");
    assert!(matches!(outcome, FlattenContext::StopConfirmedTpSubmitted));
    assert_eq!(mgr.get(1).unwrap().state, BracketState::EntryAndStop);
    let tp_evt = orders.try_pop().expect("TP should be queued");
    assert!(matches!(tp_evt.order_type, OrderType::Limit { .. }));

    let outcome = mgr.on_take_profit_confirmed(1, UnixNanos::new(4)).unwrap();
    assert!(matches!(outcome, FlattenContext::Full));
    assert_eq!(mgr.get(1).unwrap().state, BracketState::Full);
}

#[test]
fn sl_submission_failure_engages_flatten() {
    let mut orders = queue();
    let mut mgr = BracketManager::new(journal());

    let bracket = sample_bracket(1, 7, Side::Buy);
    let entry_order_id = mgr.submit_entry(bracket, &mut orders, UnixNanos::new(1)).unwrap();
    while orders.try_pop().is_some() {}
    saturate(&mut orders);

    let outcome = mgr
        .on_entry_fill(&entry_fill(entry_order_id, 100, 2, Side::Buy), &mut orders)
        .expect("entry fill must surface a flatten request");
    assert!(matches!(
        outcome,
        FlattenContext::EntryFlatten { flatten_side: Side::Sell, symbol_id: 1, quantity: 2 }
    ));
    assert_eq!(mgr.get(1).unwrap().state, BracketState::Flattening);
}

#[test]
fn tp_fill_computes_positive_pnl_and_clears_bracket() {
    let mut orders = queue();
    let mut mgr = BracketManager::new(journal());

    let bracket = sample_bracket(1, 7, Side::Buy);
    let entry_order_id = mgr.submit_entry(bracket, &mut orders, UnixNanos::new(1)).unwrap();
    mgr.on_entry_fill(&entry_fill(entry_order_id, 100, 2, Side::Buy), &mut orders);
    mgr.on_stop_confirmed(1, &mut orders, UnixNanos::new(3));

    let tp_order_id = mgr.entry(1).unwrap().take_profit_order_id.unwrap();
    let outcome = mgr.on_bracket_fill(&exit_fill(tp_order_id, 200, 2, Side::Sell, 7));
    match outcome {
        FlattenOutcome::TakeProfit { bracket_id, decision_id, realized_pnl_quarter_ticks } => {
            assert_eq!(bracket_id, 1);
            assert_eq!(decision_id, 7);
            assert_eq!(realized_pnl_quarter_ticks, 200);
        }
        other => panic!("expected TakeProfit, got {other:?}"),
    }
    assert!(mgr.get(1).is_none(), "terminal exit clears tracking");
}

#[test]
fn sl_fill_computes_negative_pnl_and_clears_bracket() {
    let mut orders = queue();
    let mut mgr = BracketManager::new(journal());

    let bracket = sample_bracket(2, 8, Side::Buy);
    let entry_order_id = mgr.submit_entry(bracket, &mut orders, UnixNanos::new(1)).unwrap();
    mgr.on_entry_fill(&entry_fill(entry_order_id, 100, 2, Side::Buy), &mut orders);
    mgr.on_stop_confirmed(2, &mut orders, UnixNanos::new(3));

    let sl_order_id = mgr.entry(2).unwrap().stop_loss_order_id.unwrap();
    match mgr.on_bracket_fill(&exit_fill(sl_order_id, 50, 2, Side::Sell, 8)) {
        FlattenOutcome::StopLoss { realized_pnl_quarter_ticks, .. } => {
            assert_eq!(realized_pnl_quarter_ticks, -100);
        }
        other => panic!("expected StopLoss, got {other:?}"),
    }
    assert!(mgr.get(2).is_none());
}

#[test]
fn short_bracket_tp_pnl_is_positive() {
    let mut orders = queue();
    let mut mgr = BracketManager::new(journal());

    let bracket = bracket_of(5, 55, Side::Sell, 1, 100, 300);
    let entry_order_id = mgr.submit_entry(bracket, &mut orders, UnixNanos::new(1)).unwrap();
    mgr.on_entry_fill(&entry_fill(entry_order_id, 200, 1, Side::Sell), &mut orders);
    mgr.on_stop_confirmed(5, &mut orders, UnixNanos::new(3));

    let tp_order_id = mgr.entry(5).unwrap().take_profit_order_id.unwrap();
    if let FlattenOutcome::TakeProfit { realized_pnl_quarter_ticks, .. } =
        mgr.on_bracket_fill(&exit_fill(tp_order_id, 100, 1, Side::Buy, 55))
    {
        assert_eq!(realized_pnl_quarter_ticks, 100);
    } else {
        panic!("expected TakeProfit");
    }
}

#[test]
fn orphan_bracket_fill_returns_orphan() {
    let mut mgr = BracketManager::new(journal());
    let fill = FillEvent {
        order_id: 9999,
        fill_price: FixedPrice::new(0),
        fill_size: 0,
        timestamp: UnixNanos::new(1),
        side: Side::Buy,
        decision_id: 0,
        fill_type: FillType::Full,
    };
    assert!(matches!(mgr.on_bracket_fill(&fill), FlattenOutcome::Orphan { order_id: 9999 }));
}

#[test]
fn rejected_entry_fill_drops_bracket_and_does_not_submit_sl() {
    let mut orders = queue();
    let mut mgr = BracketManager::new(journal());

    let bracket = sample_bracket(1, 7, Side::Buy);
    let entry_order_id = mgr.submit_entry(bracket, &mut orders, UnixNanos::new(1)).unwrap();
    let entry_evt = orders.try_pop().expect("entry queued");
    assert_eq!(entry_evt.order_id, entry_order_id);

    let reject_fill = FillEvent {
        order_id: entry_order_id,
        fill_price: FixedPrice::new(0),
        fill_size: 0,
        timestamp: UnixNanos::new(2),
        side: Side::Buy,
        decision_id: 7,
        fill_type: FillType::Rejected { reason: RejectReason::InsufficientMargin },
    };
    match mgr.on_entry_fill(&reject_fill, &mut orders) {
        Some(FlattenContext::EntryRejected { bracket_id, decision_id, reason }) => {
            assert_eq!(bracket_id, 1);
            assert_eq!(decision_id, 7);
            assert!(matches!(reason, RejectReason::InsufficientMargin));
        }
        other => panic!("expected EntryRejected, got {other:?}"),
    }
    assert!(orders.try_pop().is_none(), "rejected entry must not produce an SL submission");
    assert!(mgr.get(1).is_none());
}

#[test]
fn engage_flatten_twice_returns_already_flattening() {
    let mut orders = queue();
    let mut mgr = BracketManager::new(journal());
    let bracket = sample_bracket(1, 7, Side::Buy);
    let entry_order_id = mgr.submit_entry(bracket, &mut orders, UnixNanos::new(1)).unwrap();
    while orders.try_pop().is_some() {}
    saturate(&mut orders);
    let outcome1 = mgr
        .on_entry_fill(&entry_fill(entry_order_id, 100, 2, Side::Buy), &mut orders)
        .unwrap();
    assert!(matches!(outcome1, FlattenContext::EntryFlatten { .. }));
    let outcome2 =
        mgr.on_entry_fill(&entry_fill(entry_order_id, 100, 2, Side::Buy), &mut orders);
    assert!(
        !matches!(outcome2, Some(FlattenContext::EntryFlatten { .. })),
        "second entry-fill must NOT engage a second flatten; got {outcome2:?}"
    );
}

#[test]
fn entry_leg_needs_a_price_and_room() {
    let mut mgr = BracketManager::new(journal());
    let mut bracket = sample_bracket(1, 7, Side::Buy);
    bracket.entry.order_type = OrderKind::Limit;
    assert_eq!(
        mgr.submit_entry(bracket, &mut queue(), UnixNanos::new(1)),
        Err(BracketSubmissionError::MissingPrice)
    );
    let mut full = OrderQueue::with_capacity(0);
    assert_eq!(
        mgr.submit_entry(sample_bracket(1, 7, Side::Buy), &mut full, UnixNanos::new(1)),
        Err(BracketSubmissionError::QueueFull)
    );
    assert_eq!(mgr.active_count(), 0);
    // Both attempts used up an order number.
    assert_eq!(
        mgr.submit_entry(sample_bracket(1, 7, Side::Buy), &mut queue(), UnixNanos::new(1)),
        Ok(3)
    );
}

#[test]
fn order_numbers_start_where_told() {
    let mut mgr = BracketManager::new(journal()).with_starting_order_id(500);
    let id = mgr.submit_entry(sample_bracket(1, 7, Side::Buy), &mut queue(), UnixNanos::new(1));
    assert_eq!(id, Ok(500));
    let mut mgr = BracketManager::new(journal()).with_starting_order_id(0);
    let id = mgr.submit_entry(sample_bracket(1, 7, Side::Buy), &mut queue(), UnixNanos::new(1));
    assert_eq!(id, Ok(1));
}

#[test]
fn unpriced_take_profit_leaves_the_stop_in_place() {
    let mut orders = queue();
    let mut mgr = BracketManager::new(journal());
    let mut bracket = sample_bracket(1, 7, Side::Buy);
    bracket.take_profit.price = None;
    let id = mgr.submit_entry(bracket, &mut orders, UnixNanos::new(1)).unwrap();
    mgr.on_entry_fill(&entry_fill(id, 100, 2, Side::Buy), &mut orders);
    assert_eq!(
        mgr.on_stop_confirmed(1, &mut orders, UnixNanos::new(3)),
        Some(FlattenContext::StopConfirmedTpFailed)
    );
    assert_eq!(mgr.get(1).unwrap().state, BracketState::EntryAndStop);
    assert_eq!(mgr.entry(1).unwrap().take_profit_order_id, None);
}

#[test]
fn steps_out_of_turn_are_ignored() {
    let mut orders = queue();
    let mut mgr = BracketManager::new(journal());
    assert_eq!(mgr.on_stop_confirmed(9, &mut orders, UnixNanos::new(1)), None);
    assert_eq!(mgr.on_take_profit_confirmed(9, UnixNanos::new(1)), None);
    mgr.submit_entry(sample_bracket(1, 7, Side::Buy), &mut orders, UnixNanos::new(1)).unwrap();
    assert_eq!(mgr.on_take_profit_confirmed(1, UnixNanos::new(1)), None);
    assert_eq!(mgr.get(1).unwrap().state, BracketState::NoBracket);
}

#[test]
fn bracket_states_move_only_along_their_arcs() {
    let mut bracket = sample_bracket(1, 7, Side::Buy);
    assert_eq!(
        bracket.transition(BracketState::Full),
        Err(BracketStateError { from: BracketState::NoBracket, to: BracketState::Full })
    );
    assert_eq!(bracket.transition(BracketState::EntryOnly), Ok(()));
    assert_eq!(bracket.transition(BracketState::EntryAndStop), Ok(()));
    assert_eq!(bracket.transition(BracketState::Full), Ok(()));
    assert_eq!(bracket.state, BracketState::Full);
}

#[test]
fn closed_bracket_is_journaled() {
    let (tx, mut rx) = EventJournal::channel();
    let mut orders = queue();
    let mut mgr = BracketManager::new(tx);
    let id = mgr.submit_entry(sample_bracket(1, 7, Side::Buy), &mut orders, UnixNanos::new(1));
    mgr.on_entry_fill(&entry_fill(id.unwrap(), 100, 2, Side::Buy), &mut orders);
    mgr.on_stop_confirmed(1, &mut orders, UnixNanos::new(3));
    mgr.on_take_profit_confirmed(1, UnixNanos::new(4));
    let tp = mgr.entry(1).unwrap().take_profit_order_id.unwrap();
    mgr.on_bracket_fill(&exit_fill(tp, 200, 2, Side::Sell, 7));
    let mut messages = Vec::new();
    while let Some(event) = rx.try_recv_for_test() {
        if let EngineEvent::SystemEvent(record) = event {
            assert_eq!(record.category, "bracket");
            messages.push(record.message);
        }
    }
    assert_eq!(
        messages.last().map(|m| m.as_str()),
        Some("bracket 1 (decision 7) closed via tp_fill, pnl_qt=200")
    );
    assert!(messages.iter().any(|m| m == "bracket 1 (decision 7) -> Full"));
}

#[test]
fn dropped_bracket_is_forgotten() {
    let mut orders = queue();
    let mut mgr = BracketManager::new(journal());
    let id = mgr.submit_entry(sample_bracket(1, 7, Side::Buy), &mut orders, UnixNanos::new(1));
    mgr.drop_bracket(1);
    assert_eq!(mgr.active_count(), 0);
    assert_eq!(mgr.on_entry_fill(&entry_fill(id.unwrap(), 100, 2, Side::Buy), &mut orders), None);
}

#[test]
fn a_closed_bracket_is_no_longer_counted() {
    let mut orders = queue();
    let mut mgr = BracketManager::new(journal());
    let entry =
        mgr.submit_entry(sample_bracket(1, 7, Side::Buy), &mut orders, UnixNanos::new(1)).unwrap();
    mgr.submit_entry(sample_bracket(2, 8, Side::Buy), &mut orders, UnixNanos::new(1)).unwrap();
    while orders.try_pop().is_some() {}
    mgr.on_entry_fill(&entry_fill(entry, 100, 2, Side::Buy), &mut orders);
    let stop = orders.try_pop().unwrap().order_id;
    mgr.on_stop_confirmed(1, &mut orders, UnixNanos::new(3));
    let profit = orders.try_pop().unwrap().order_id;
    assert_eq!(mgr.active_count(), 2);
    // A fill of the entry leg closes nothing.
    let outcome = mgr.on_bracket_fill(&exit_fill(entry, 90, 2, Side::Sell, 7));
    assert!(matches!(outcome, FlattenOutcome::Orphan { .. }));
    assert_eq!(mgr.active_count(), 2);
    match mgr.on_bracket_fill(&exit_fill(stop, 90, 2, Side::Sell, 7)) {
        FlattenOutcome::StopLoss { bracket_id, realized_pnl_quarter_ticks, .. } => {
            assert_eq!((bracket_id, realized_pnl_quarter_ticks), (1, -20));
        }
        other => panic!("expected a stop-loss, got {other:?}"),
    }
    assert_eq!(mgr.active_count(), 1);
    for order_id in [entry, stop, profit] {
        let outcome = mgr.on_bracket_fill(&exit_fill(order_id, 90, 2, Side::Sell, 7));
        assert!(matches!(outcome, FlattenOutcome::Orphan { .. }));
    }
    assert_eq!(mgr.active_count(), 1);
}
