use futures_bmad_engine::order_manager::wal::{
    check_final_state, decode_row, encode_row, parse_side, parse_state, recover_pending,
    side_to_str, state_to_str, write_before_submit, WalError, WalRow,
};
use futures_bmad_engine::types::{OrderEvent, OrderState, OrderType, Side, UnixNanos};

fn make_event(order_id: u64) -> OrderEvent {
    OrderEvent {
        order_id,
        symbol_id: 1,
        side: Side::Buy,
        quantity: 3,
        order_type: OrderType::Market,
        decision_id: order_id * 10,
        timestamp: UnixNanos::new(1_700_000_000_000_000_000 + order_id),
    }
}

fn row(order_id: u64, bracket_id: Option<u64>) -> WalRow {
    encode_row(&write_before_submit(&make_event(order_id), bracket_id))
}

fn row_in(order_id: u64, state: OrderState) -> WalRow {
    let mut pending = write_before_submit(&make_event(order_id), None);
    pending.state = state;
    encode_row(&pending)
}

#[test]
fn write_before_submit_persists_and_recover_returns_pending() {
    let rows = vec![row(1, Some(99)), row(2, None)];
    let pending = recover_pending(&rows).unwrap();
    assert_eq!(pending.len(), 2);
    let p1 = pending.iter().find(|p| p.order_id == 1).unwrap();
    assert_eq!(p1.decision_id, 10);
    assert_eq!(p1.symbol_id, 1);
    assert_eq!(p1.side, Side::Buy);
    assert_eq!(p1.quantity, 3);
    assert_eq!(p1.state, OrderState::Submitted);
    assert_eq!(p1.bracket_id, Some(99));
    let p2 = pending.iter().find(|p| p.order_id == 2).unwrap();
    assert_eq!(p2.bracket_id, None);
}

#[test]
fn mark_resolved_excludes_terminal_orders_from_recovery() {
    check_final_state(OrderState::Filled).unwrap();
    check_final_state(OrderState::Resolved).unwrap();
    let rows = vec![
        row_in(1, OrderState::Filled),
        row(2, None),
        row_in(3, OrderState::Resolved),
    ];
    let pending = recover_pending(&rows).unwrap();
    assert_eq!(pending.len(), 1);
    assert_eq!(pending[0].order_id, 2);
}

#[test]
fn mark_resolved_rejects_non_terminal_state() {
    let err = check_final_state(OrderState::Submitted).unwrap_err();
    let WalError::BadRow(text) = err;
    assert_eq!(text, "non-terminal state Submitted passed to mark_resolved");
}

#[test]
fn update_state_preserves_row_and_changes_state() {
    let mut stored = row(1, None);
    stored.state = state_to_str(OrderState::Uncertain).to_string();
    let p = decode_row(&stored).unwrap();
    assert_eq!(p.state, OrderState::Uncertain);
    let pending = recover_pending(&vec![stored]).unwrap();
    assert_eq!(pending.len(), 1);
    assert_eq!(pending[0].state, OrderState::Uncertain);
}

#[test]
fn recover_pending_excludes_cancelled() {
    let pending = recover_pending(&vec![row_in(1, OrderState::Cancelled)]).unwrap();
    assert!(pending.is_empty());
}

#[test]
fn fields_round_trip_across_file_reopen() {
    let mut e = make_event(42);
    e.side = Side::Sell;
    let p = decode_row(&encode_row(&write_before_submit(&e, Some(7)))).unwrap();
    assert_eq!(p.side, Side::Sell);
    assert_eq!(p.bracket_id, Some(7));
    assert_eq!(p.submitted_at.as_nanos(), 1_700_000_000_000_000_042);
}

#[test]
fn large_numbers_survive_signed_columns() {
    let mut e = make_event(1);
    e.order_id = u64::MAX;
    e.decision_id = 1 << 63;
    e.timestamp = UnixNanos::new(u64::MAX - 1);
    e.quantity = u32::MAX;
    let stored = encode_row(&write_before_submit(&e, Some(u64::MAX)));
    assert_eq!(stored.order_id, -1);
    assert_eq!(stored.decision_id, i64::MIN);
    let p = decode_row(&stored).unwrap();
    assert_eq!(p.order_id, u64::MAX);
    assert_eq!(p.decision_id, 1 << 63);
    assert_eq!(p.submitted_at.as_nanos(), u64::MAX - 1);
    assert_eq!(p.quantity, u32::MAX);
    assert_eq!(p.bracket_id, Some(u64::MAX));
}

#[test]
fn names_are_read_back() {
    for side in [Side::Buy, Side::Sell] {
        assert_eq!(parse_side(side_to_str(side)), Ok(side));
    }
    for state in [
        OrderState::Idle,
        OrderState::Submitted,
        OrderState::Confirmed,
        OrderState::PartialFill,
        OrderState::Filled,
        OrderState::Rejected,
        OrderState::Cancelled,
        OrderState::PendingCancel,
        OrderState::Uncertain,
        OrderState::PendingRecon,
        OrderState::Resolved,
    ] {
        assert_eq!(parse_state(state_to_str(state)), Ok(state));
    }
    assert_eq!(parse_side("buy"), Err("invalid side string: buy".to_string()));
    assert_eq!(parse_state(""), Err("invalid state string: ".to_string()));
}

#[test]
fn first_unreadable_open_row_is_reported() {
    let mut bad_side = row(1, None);
    bad_side.side = "Long".to_string();
    let mut bad_state = row(2, None);
    bad_state.state = "Lost".to_string();
    let WalError::BadRow(text) = recover_pending(&vec![bad_side, bad_state]).unwrap_err();
    assert_eq!(text, "invalid side string: Long");
    // A closed row is not looked at.
    let mut closed = row_in(3, OrderState::Filled);
    closed.side = "Long".to_string();
    assert!(recover_pending(&vec![closed]).unwrap().is_empty());
}

#[test]
fn wide_columns_keep_their_low_bits() {
    let mut wide = row(1, None);
    wide.quantity = (1i64 << 32) + 5;
    wide.symbol_id = -1;
    let p = decode_row(&wide).unwrap();
    assert_eq!(p.quantity, 5);
    assert_eq!(p.symbol_id, u32::MAX);
}
