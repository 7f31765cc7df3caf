//! The write-ahead log of submitted orders: its rows and how they are read.
//!
//! An order is written to the log before it is routed, so that after a crash
//! every order that may have reached the exchange is found again.
use vstd::prelude::*;
use vstd::string::StringExecFns;

use crate::arith::{
    low_u32, signed_column_round_trip, signed_reading, to_signed, to_unsigned, unsigned_reading,
};
use crate::text::str_eq;
use crate::types::{OrderEvent, OrderState, Side, UnixNanos};

verus! {

/// An order in the log.
#[derive(Debug, Clone, Copy, PartialEq, Eq, Structural)]
pub struct PendingOrder {
    pub order_id: u64,
    pub decision_id: u64,
    pub symbol_id: u32,
    pub side: Side,
    pub quantity: u32,
    pub state: OrderState,
    pub submitted_at: UnixNanos,
    pub bracket_id: Option<u64>,
}

/// The column values of one row of `pending_orders`.
#[derive(Debug, Clone)]
pub struct WalRow {
    pub order_id: i64,
    pub decision_id: i64,
    pub symbol_id: i64,
    pub side: String,
    pub quantity: i64,
    pub state: String,
    pub submitted_at: i64,
    pub bracket_id: Option<i64>,
}

/// A row that cannot be read, or an update that the log refuses.
#[derive(Debug, Clone)]
pub enum WalError {
    BadRow(String),
}

/// An update of the log that the order manager asks for.
#[derive(Debug, Clone, Copy, PartialEq, Eq, Structural)]
pub enum WalOp {
    /// The order reached this terminal state. Where `failure_at` is given, a
    /// failed update is to be journaled under that time.
    MarkResolved { order_id: u64, final_state: OrderState, failure_at: Option<UnixNanos> },
    /// The order is still open and now in this state.
    UpdateState { order_id: u64, new_state: OrderState },
}

/// The log row of an order that is about to be routed.
pub open spec fn pending_row(order: OrderEvent, bracket_id: Option<u64>) -> PendingOrder {
    PendingOrder {
        order_id: order.order_id,
        decision_id: order.decision_id,
        symbol_id: order.symbol_id,
        side: order.side,
        quantity: order.quantity,
        state: OrderState::Submitted,
        submitted_at: order.timestamp,
        bracket_id,
    }
}

/// What is written to the log before `order` is routed.
pub fn write_before_submit(order: &OrderEvent, bracket_id: Option<u64>) -> (r: PendingOrder)
    ensures
        r == pending_row(*order, bracket_id),
{
    PendingOrder {
        order_id: order.order_id,
        decision_id: order.decision_id,
        symbol_id: order.symbol_id,
        side: order.side,
        quantity: order.quantity,
        state: OrderState::Submitted,
        submitted_at: order.timestamp,
        bracket_id,
    }
}

pub fn side_to_str(side: Side) -> (r: &'static str)
    ensures
        r@ == side.name(),
{
    side.as_str()
}

/// The side with this name.
pub open spec fn side_named(s: Seq<char>) -> Option<Side> {
    if s == "Buy"@ {
        Some(Side::Buy)
    } else if s == "Sell"@ {
        Some(Side::Sell)
    } else {
        None
    }
}

pub fn parse_side(s: &str) -> (r: Result<Side, String>)
    ensures
        match side_named(s@) {
            Some(side) => r == Ok::<Side, String>(side),
            None => r is Err && r->Err_0@ == "invalid side string: "@ + s@,
        },
{
    if str_eq(s, "Buy") {
        Ok(Side::Buy)
    } else if str_eq(s, "Sell") {
        Ok(Side::Sell)
    } else {
        let mut message = "invalid side string: ".to_owned();
        message.append(s);
        Err(message)
    }
}

pub fn state_to_str(state: OrderState) -> (r: &'static str)
    ensures
        r@ == state.name(),
{
    state.as_str()
}

/// The order state with this name.
pub open spec fn state_named(s: Seq<char>) -> Option<OrderState> {
    if s == "Idle"@ {
        Some(OrderState::Idle)
    } else if s == "Submitted"@ {
        Some(OrderState::Submitted)
    } else if s == "Confirmed"@ {
        Some(OrderState::Confirmed)
    } else if s == "PartialFill"@ {
        Some(OrderState::PartialFill)
    } else if s == "Filled"@ {
        Some(OrderState::Filled)
    } else if s == "Rejected"@ {
        Some(OrderState::Rejected)
    } else if s == "Cancelled"@ {
        Some(OrderState::Cancelled)
    } else if s == "PendingCancel"@ {
        Some(OrderState::PendingCancel)
    } else if s == "Uncertain"@ {
        Some(OrderState::Uncertain)
    } else if s == "PendingRecon"@ {
        Some(OrderState::PendingRecon)
    } else if s == "Resolved"@ {
        Some(OrderState::Resolved)
    } else {
        None
    }
}

pub fn parse_state(s: &str) -> (r: Result<OrderState, String>)
    ensures
        match state_named(s@) {
            Some(state) => r == Ok::<OrderState, String>(state),
            None => r is Err && r->Err_0@ == "invalid state string: "@ + s@,
        },
{
    if str_eq(s, "Idle") {
        Ok(OrderState::Idle)
    } else if str_eq(s, "Submitted") {
        Ok(OrderState::Submitted)
    } else if str_eq(s, "Confirmed") {
        Ok(OrderState::Confirmed)
    } else if str_eq(s, "PartialFill") {
        Ok(OrderState::PartialFill)
    } else if str_eq(s, "Filled") {
        Ok(OrderState::Filled)
    } else if str_eq(s, "Rejected") {
        Ok(OrderState::Rejected)
    } else if str_eq(s, "Cancelled") {
        Ok(OrderState::Cancelled)
    } else if str_eq(s, "PendingCancel") {
        Ok(OrderState::PendingCancel)
    } else if str_eq(s, "Uncertain") {
        Ok(OrderState::Uncertain)
    } else if str_eq(s, "PendingRecon") {
        Ok(OrderState::PendingRecon)
    } else if str_eq(s, "Resolved") {
        Ok(OrderState::Resolved)
    } else {
        let mut message = "invalid state string: ".to_owned();
        message.append(s);
        Err(message)
    }
}

/// A side is read back from its name.
pub proof fn side_name_round_trip(side: Side)
    ensures
        side_named(side.name()) == Some(side),
{
    reveal_strlit("Buy");
    reveal_strlit("Sell");
    assert("Buy"@.len() == 3);
    assert("Sell"@.len() == 4);
}

/// An order state is read back from its name.
pub proof fn state_name_round_trip(state: OrderState)
    ensures
        state_named(state.name()) == Some(state),
{
    reveal_strlit("Idle");
    reveal_strlit("Submitted");
    reveal_strlit("Confirmed");
    reveal_strlit("PartialFill");
    reveal_strlit("Filled");
    reveal_strlit("Rejected");
    reveal_strlit("Cancelled");
    reveal_strlit("PendingCancel");
    reveal_strlit("Uncertain");
    reveal_strlit("PendingRecon");
    reveal_strlit("Resolved");
    let s = state.name();
    assert("Idle"@.len() == 4);
    assert("Filled"@.len() == 6);
    assert("Rejected"@.len() == 8 && "Rejected"@[2] == 'j');
    assert("Resolved"@.len() == 8 && "Resolved"@[2] == 's');
    assert("Submitted"@.len() == 9 && "Submitted"@[0] == 'S');
    assert("Confirmed"@.len() == 9 && "Confirmed"@[1] == 'o');
    assert("Cancelled"@.len() == 9 && "Cancelled"@[1] == 'a');
    assert("Confirmed"@[0] == 'C');
    assert("Cancelled"@[0] == 'C');
    assert("Uncertain"@.len() == 9 && "Uncertain"@[0] == 'U');
    assert("PartialFill"@.len() == 11);
    assert("PendingRecon"@.len() == 12);
    assert("PendingCancel"@.len() == 13);
}

/// The column values that stand for an order.
pub open spec fn row_stands_for(row: WalRow, order: PendingOrder) -> bool {
    &&& row.order_id == signed_reading(order.order_id as int)
    &&& row.decision_id == signed_reading(order.decision_id as int)
    &&& row.symbol_id == order.symbol_id
    &&& row.side@ == order.side.name()
    &&& row.quantity == order.quantity
    &&& row.state@ == order.state.name()
    &&& row.submitted_at == signed_reading(order.submitted_at.nanos as int)
    &&& row.bracket_id is Some == order.bracket_id is Some
    &&& row.bracket_id is Some ==> row.bracket_id->Some_0 == signed_reading(
        order.bracket_id->Some_0 as int,
    )
}

/// The column values of an order.
pub fn encode_row(order: &PendingOrder) -> (r: WalRow)
    ensures
        row_stands_for(r, *order),
{
    WalRow {
        order_id: to_signed(order.order_id),
        decision_id: to_signed(order.decision_id),
        symbol_id: order.symbol_id as i64,
        side: side_to_str(order.side).to_owned(),
        quantity: order.quantity as i64,
        state: state_to_str(order.state).to_owned(),
        submitted_at: to_signed(order.submitted_at.nanos),
        bracket_id: match order.bracket_id {
            Some(id) => Some(to_signed(id)),
            None => None,
        },
    }
}

/// The order that a readable row stands for.
pub open spec fn row_order(row: WalRow) -> PendingOrder {
    PendingOrder {
        order_id: unsigned_reading(row.order_id as int) as u64,
        decision_id: unsigned_reading(row.decision_id as int) as u64,
        symbol_id: ((row.symbol_id as int) % 0x1_0000_0000) as u32,
        side: side_named(row.side@)->Some_0,
        quantity: ((row.quantity as int) % 0x1_0000_0000) as u32,
        state: state_named(row.state@)->Some_0,
        submitted_at: UnixNanos { nanos: unsigned_reading(row.submitted_at as int) as u64 },
        bracket_id: match row.bracket_id {
            Some(id) => Some(unsigned_reading(id as int) as u64),
            None => None,
        },
    }
}

/// Whether side and state of the row are names of the log.
pub open spec fn row_readable(row: WalRow) -> bool {
    side_named(row.side@) is Some && state_named(row.state@) is Some
}

/// What is wrong with an unreadable row.
pub open spec fn row_complaint(row: WalRow) -> Seq<char> {
    if side_named(row.side@) is None {
        "invalid side string: "@ + row.side@
    } else {
        "invalid state string: "@ + row.state@
    }
}

/// Reads one row of the log.
pub fn decode_row(row: &WalRow) -> (r: Result<PendingOrder, WalError>)
    ensures
        r is Ok <==> row_readable(*row),
        r matches Ok(order) ==> order == row_order(*row),
        r matches Err(WalError::BadRow(text)) ==> text@ == row_complaint(*row),
{
    let side = match parse_side(row.side.as_str()) {
        Ok(side) => side,
        Err(text) => {
            return Err(WalError::BadRow(text));
        },
    };
    let state = match parse_state(row.state.as_str()) {
        Ok(state) => state,
        Err(text) => {
            return Err(WalError::BadRow(text));
        },
    };
    Ok(
        PendingOrder {
            order_id: to_unsigned(row.order_id),
            decision_id: to_unsigned(row.decision_id),
            symbol_id: low_u32(row.symbol_id),
            side,
            quantity: low_u32(row.quantity),
            state,
            submitted_at: UnixNanos::new(to_unsigned(row.submitted_at)),
            bracket_id: match row.bracket_id {
                Some(id) => Some(to_unsigned(id)),
                None => None,
            },
        },
    )
}

/// An order written to the log is read back as it was.
pub proof fn row_round_trip(row: WalRow, order: PendingOrder)
    requires
        row_stands_for(row, order),
    ensures
        row_readable(row),
        row_order(row) == order,
{
    side_name_round_trip(order.side);
    state_name_round_trip(order.state);
    signed_column_round_trip(order.order_id);
    signed_column_round_trip(order.decision_id);
    signed_column_round_trip(order.submitted_at.nanos);
    if order.bracket_id is Some {
        signed_column_round_trip(order.bracket_id->Some_0);
    }
}

/// Whether an order with this state column is closed.
pub open spec fn closed_state_text(s: Seq<char>) -> bool {
    s == "Filled"@ || s == "Rejected"@ || s == "Resolved"@ || s == "Cancelled"@
}

/// The state column marks an order closed exactly where its state is terminal.
pub proof fn closed_state_text_is_terminal(state: OrderState)
    ensures
        closed_state_text(state.name()) == state.terminal(),
{
    state_name_round_trip(state);
    state_name_round_trip(OrderState::Filled);
    state_name_round_trip(OrderState::Rejected);
    state_name_round_trip(OrderState::Resolved);
    state_name_round_trip(OrderState::Cancelled);
}

/// The open rows among the first rows of the log, in their order.
pub open spec fn open_rows(rows: Seq<WalRow>) -> Seq<WalRow> {
    rows.filter(|row: WalRow| !closed_state_text(row.state@))
}

/// The open orders of the log, in the order of their rows. The first row that
/// cannot be read is reported.
pub fn recover_pending(rows: &Vec<WalRow>) -> (r: Result<Vec<PendingOrder>, WalError>)
    ensures
        r is Ok <==> forall|i: int|
            0 <= i < rows@.len() && !closed_state_text(#[trigger] rows@[i].state@) ==> row_readable(
                rows@[i],
            ),
        r matches Ok(orders) ==> orders@ == open_rows(rows@).map_values(
            |row: WalRow| row_order(row),
        ),
        r matches Err(WalError::BadRow(text)) ==> exists|i: int|
            0 <= i < rows@.len() && !closed_state_text(#[trigger] rows@[i].state@)
                && !row_readable(rows@[i]) && text@ == row_complaint(rows@[i]) && (forall|j: int|
                0 <= j < i && !closed_state_text(#[trigger] rows@[j].state@) ==> row_readable(
                    rows@[j],
                )),
{
    let mut out: Vec<PendingOrder> = Vec::new();
    let mut i: usize = 0;
    while i < rows.len()
        invariant
            i <= rows@.len(),
            forall|j: int|
                0 <= j < i && !closed_state_text(#[trigger] rows@[j].state@) ==> row_readable(
                    rows@[j],
                ),
            out@ == open_rows(rows@.take(i as int)).map_values(|row: WalRow| row_order(row)),
        decreases rows@.len() - i,
    {
        let text = rows[i].state.as_str();
        let closed = str_eq(text, "Filled") || str_eq(text, "Rejected") || str_eq(text, "Resolved")
            || str_eq(text, "Cancelled");
        let ghost before = rows@.take(i as int);
        let ghost keep = |row: WalRow| !closed_state_text(row.state@);
        proof {
            assert(rows@.take(i + 1) =~= before.push(rows@[i as int]));
            assert(before.push(rows@[i as int]).drop_last() =~= before);
            reveal(Seq::filter);
            assert(rows@.take(i + 1).filter(keep) == if keep(rows@[i as int]) {
                before.filter(keep).push(rows@[i as int])
            } else {
                before.filter(keep)
            });
        }
        if !closed {
            match decode_row(&rows[i]) {
                Ok(order) => {
                    out.push(order);
                },
                Err(complaint) => {
                    return Err(complaint);
                },
            }
        }
        assert(out@ =~= open_rows(rows@.take(i + 1)).map_values(|row: WalRow| row_order(row)));
        i += 1;
    }
    assert(rows@.take(rows@.len() as int) =~= rows@);
    Ok(out)
}

/// Whether an order may be marked resolved with this state.
pub fn check_final_state(final_state: OrderState) -> (r: Result<(), WalError>)
    ensures
        r is Ok <==> final_state.terminal(),
        r matches Err(WalError::BadRow(text)) ==> text@ == "non-terminal state "@
            + final_state.name() + " passed to mark_resolved"@,
{
    if final_state.is_terminal() {
        Ok(())
    } else {
        let mut message = "non-terminal state ".to_owned();
        message.append(final_state.as_str());
        message.append(" passed to mark_resolved");
        Err(WalError::BadRow(message))
    }
}

/// The row that is written before an order is routed holds the order as it was
/// given, as submitted.
pub proof fn rows_are_written_as_ordered(order: OrderEvent, bracket_id: Option<u64>)
    ensures
        ({
            let row = pending_row(order, bracket_id);
            &&& row.order_id == order.order_id
            &&& row.decision_id == order.decision_id
            &&& row.symbol_id == order.symbol_id
            &&& row.side == order.side
            &&& row.quantity == order.quantity
            &&& row.state == OrderState::Submitted
            &&& row.submitted_at == order.timestamp
            &&& row.bracket_id == bracket_id
        }),
{
}

/// The columns of a row hold numbers as they are, up to what a signed column can
/// hold, and sides and states by their names.
pub proof fn columns_hold_the_order(row: WalRow, order: PendingOrder)
    requires
        row_stands_for(row, order),
    ensures
        order.order_id <= i64::MAX ==> row.order_id == order.order_id,
        order.decision_id <= i64::MAX ==> row.decision_id == order.decision_id,
        order.submitted_at.nanos <= i64::MAX ==> row.submitted_at == order.submitted_at.nanos,
        row.symbol_id == order.symbol_id,
        row.quantity == order.quantity,
        row.side@ == "Buy"@ <==> order.side == Side::Buy,
        row.side@ == "Sell"@ <==> order.side == Side::Sell,
        row.state@ == "Submitted"@ <==> order.state == OrderState::Submitted,
        row.state@ == "Uncertain"@ <==> order.state == OrderState::Uncertain,
        row.state@ == "PendingRecon"@ <==> order.state == OrderState::PendingRecon,
        row.bracket_id is None <==> order.bracket_id is None,
        order.bracket_id matches Some(bracket) ==> (bracket <= i64::MAX ==> row.bracket_id == Some(
            bracket as i64,
        )),
{
    crate::types::sides_and_refusals_are_told_apart(
        order.side,
        crate::types::RejectReason::ExchangeReject,
    );
    crate::types::order_states_are_told_apart(order.state, OrderState::Submitted);
    crate::types::order_states_are_told_apart(order.state, OrderState::Uncertain);
    crate::types::order_states_are_told_apart(order.state, OrderState::PendingRecon);
}

/// A row is read as it stands: its numbers are those of the order, its names those
/// of the side and the state.
pub proof fn rows_are_read_as_they_stand(row: WalRow)
    requires
        row_readable(row),
    ensures
        ({
            let order = row_order(row);
            &&& row.order_id >= 0 ==> order.order_id == row.order_id
            &&& row.decision_id >= 0 ==> order.decision_id == row.decision_id
            &&& row.submitted_at >= 0 ==> order.submitted_at.nanos == row.submitted_at
            &&& 0 <= row.symbol_id <= u32::MAX ==> order.symbol_id == row.symbol_id
            &&& 0 <= row.quantity <= u32::MAX ==> order.quantity == row.quantity
            &&& order.side == Side::Buy <==> row.side@ == "Buy"@
            &&& order.side == Side::Sell <==> row.side@ == "Sell"@
            &&& order.state.name() == row.state@
            &&& order.bracket_id is None <==> row.bracket_id is None
            &&& row.bracket_id matches Some(bracket) ==> (bracket >= 0 ==> order.bracket_id == Some(
                bracket as u64,
            ))
        }),
{
    side_name_round_trip(Side::Buy);
    side_name_round_trip(Side::Sell);
    if 0 <= row.symbol_id <= u32::MAX {
        vstd::arithmetic::div_mod::lemma_small_mod(row.symbol_id as nat, 0x1_0000_0000);
    }
    if 0 <= row.quantity <= u32::MAX {
        vstd::arithmetic::div_mod::lemma_small_mod(row.quantity as nat, 0x1_0000_0000);
    }
}

/// A row can be read exactly when its side and its state are names of the log; of
/// two bad names the side is complained of.
pub proof fn only_names_can_be_read(row: WalRow)
    ensures
        row_readable(row) <==> (exists|side: Side| row.side@ == #[trigger] side.name()) && (exists|
            state: OrderState,
        |
            row.state@ == #[trigger] state.name()),
        !(row.side@ == "Buy"@ || row.side@ == "Sell"@) ==> row_complaint(row)
            == "invalid side string: "@ + row.side@,
        row.side@ == "Buy"@ || row.side@ == "Sell"@ ==> row_complaint(row)
            == "invalid state string: "@ + row.state@,
{
    if row_readable(row) {
        let order = row_order(row);
        assert(row.side@ == order.side.name());
        assert(row.state@ == order.state.name());
    }
    assert forall|side: Side| row.side@ == #[trigger] side.name() implies side_named(row.side@)
        is Some by {
        side_name_round_trip(side);
    }
    assert forall|state: OrderState| row.state@ == #[trigger] state.name() implies state_named(
        row.state@,
    ) is Some by {
        state_name_round_trip(state);
    }
}

/// The rows found open are those whose state is none of the four at which an order
/// rests, each once and in their order.
pub proof fn open_rows_are_those_not_closed(rows: Seq<WalRow>, next: WalRow)
    ensures
        open_rows(Seq::<WalRow>::empty()).len() == 0,
        next.state@ == "Filled"@ || next.state@ == "Rejected"@ || next.state@ == "Resolved"@
            || next.state@ == "Cancelled"@ ==> open_rows(rows.push(next)) == open_rows(rows),
        next.state@ != "Filled"@ && next.state@ != "Rejected"@ && next.state@ != "Resolved"@
            && next.state@ != "Cancelled"@ ==> open_rows(rows.push(next)) == open_rows(rows).push(
            next,
        ),
{
    reveal(Seq::filter);
    assert(rows.push(next).drop_last() =~= rows);
    assert(rows.push(next).last() == next);
}

} // verus!
