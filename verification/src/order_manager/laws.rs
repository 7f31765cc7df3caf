//! What holds of orders and brackets across several steps.
use vstd::prelude::*;

use super::bracket::{leg_order, BracketEntry, BracketModel, FlattenContext, FlattenOutcome};
use super::wal::WalOp;
use super::{
    fill_size_ok, in_doubt, BrokerOrderStatus, FillOutcome, ManagerModel, ResolveOutcome,
};
use crate::arith::clamp_i64;
use crate::persistence::journal::EventModel;
use crate::text::dec_nat;
use crate::types::{
    BracketState, FillEvent, FillType, OrderEvent, OrderParams, OrderState, OrderType, Position, Side, UnixNanos,
};

verus! {

/// A fill whose size contradicts the order leaves everything as it was.
pub proof fn bad_fill_size_changes_nothing(model: ManagerModel, fill: FillEvent)
    requires
        model.orders.contains_key(fill.order_id),
        !fill_size_ok(fill, model.orders[fill.order_id].remaining_quantity),
    ensures
        model.after_fill(fill) == model,
        model.fill_outcome(fill) is InvalidFillSize,
{
}

/// A fill of an unknown order leaves everything as it was.
pub proof fn orphan_fill_changes_nothing(model: ManagerModel, fill: FillEvent)
    requires
        !model.orders.contains_key(fill.order_id),
    ensures
        model.after_fill(fill) == model,
        model.fill_outcome(fill) == (FillOutcome::Orphan { order_id: fill.order_id }),
{
}

/// A fill touches no other order.
pub proof fn fill_touches_one_order(model: ManagerModel, fill: FillEvent, other: u64)
    requires
        other != fill.order_id,
    ensures
        ({
            let after = model.after_fill(fill);
            &&& after.orders.contains_key(other) == model.orders.contains_key(other)
            &&& model.orders.contains_key(other) ==> after.orders[other] == model.orders[other]
            &&& after.machines.contains_key(other) == model.machines.contains_key(other)
            &&& model.machines.contains_key(other) ==> after.machines[other]
                == model.machines[other]
            &&& after.brackets.contains_key(other) == model.brackets.contains_key(other)
            &&& after.recon.contains_key(other) == model.recon.contains_key(other)
        }),
{
}

/// Every partial fill leaves strictly less of the order.
pub proof fn partial_fill_shrinks_order(model: ManagerModel, fill: FillEvent)
    requires
        model.consistent(),
        model.fill_outcome(fill) is Partial,
    ensures
        ({
            let after = model.after_fill(fill);
            &&& after.orders.contains_key(fill.order_id)
            &&& after.orders[fill.order_id].remaining_quantity
                < model.orders[fill.order_id].remaining_quantity
            &&& after.orders[fill.order_id].state is PartialFill
        }),
{
}

/// A filled or rejected order is forgotten, one order less is tracked, and where a
/// log is kept, its row is closed.
pub proof fn closed_order_is_forgotten(model: ManagerModel, fill: FillEvent)
    requires
        model.consistent(),
        model.fill_outcome(fill) is Filled || model.fill_outcome(fill) is Rejected,
    ensures
        ({
            let after = model.after_fill(fill);
            &&& !after.orders.contains_key(fill.order_id)
            &&& after.orders.dom().len() == model.orders.dom().len() - 1
            &&& !after.machines.contains_key(fill.order_id)
            &&& !after.brackets.contains_key(fill.order_id)
            &&& !after.recon.contains_key(fill.order_id)
            &&& model.wal_enabled ==> after.wal_ops.len() == model.wal_ops.len() + 1
        }),
{
    let confirmed = model.confirmed_by(fill);
    assert(confirmed.orders.dom() =~= model.orders.dom());
}

/// Orders are tracked from their submission on and never taken up by a fill.
proof fn lemma_fills_track_nothing(model: ManagerModel, fills: Seq<FillEvent>, order_id: u64)
    requires
        !model.orders.contains_key(order_id),
    ensures
        !model.after_fills(fills).orders.contains_key(order_id),
    decreases fills.len(),
{
    if fills.len() > 0 {
        lemma_fills_track_nothing(model, fills.drop_last(), order_id);
    }
}

/// Once an order was filled or rejected, every later fill of it is an orphan that
/// changes nothing, whatever fills came in between.
pub proof fn closed_order_stays_closed(
    model: ManagerModel,
    fill: FillEvent,
    between: Seq<FillEvent>,
    later: FillEvent,
)
    requires
        model.consistent(),
        model.fill_outcome(fill) is Filled || model.fill_outcome(fill) is Rejected,
        later.order_id == fill.order_id,
    ensures
        ({
            let then = model.after_fill(fill).after_fills(between);
            &&& then.fill_outcome(later) == (FillOutcome::Orphan { order_id: fill.order_id })
            &&& then.after_fill(later) == then
        }),
{
    closed_order_is_forgotten(model, fill);
    lemma_fills_track_nothing(model.after_fill(fill), between, fill.order_id);
}

/// While an order's fate is unknown, no fill moves it: it waits for the broker's
/// answer.
pub proof fn order_in_doubt_takes_no_fill(model: ManagerModel, fill: FillEvent)
    requires
        model.orders.contains_key(fill.order_id),
        model.machines.contains_key(fill.order_id),
        in_doubt(model.machines[fill.order_id].state),
    ensures
        model.fill_outcome(fill) is InvalidFillSize || model.fill_outcome(fill)
            is InvalidTransition,
        model.after_fill(fill).machines =~= model.machines,
        model.after_fill(fill).orders.contains_key(fill.order_id),
{
}

/// A second fill after the one that completed an order is an orphan.
pub proof fn replayed_fill_is_orphan(model: ManagerModel, fill: FillEvent)
    requires
        model.fill_outcome(fill) is Filled,
    ensures
        model.after_fill(fill).fill_outcome(fill) is Orphan,
        model.after_fill(fill).after_fill(fill) == model.after_fill(fill),
{
}

/// Once any order ran out of time, submissions are paused.
pub proof fn timeout_pauses_submissions(model: ManagerModel, ids: Seq<u64>, now: UnixNanos)
    requires
        ids.len() > 0,
    ensures
        model.after_timeouts(ids, now).paused,
    decreases ids.len(),
{
}

/// After the answer about the last order in doubt, submissions are open again;
/// before, they are not.
pub proof fn answer_reopens_submissions(model: ManagerModel, order_id: u64, now: UnixNanos)
    requires
        model.consistent(),
        model.reconciling(order_id),
    ensures
        model.after_resolve(order_id, now).paused == (exists|id: u64|
            id != order_id && #[trigger] model.machines.contains_key(id) && in_doubt(
                model.machines[id].state,
            )),
{
    let after = model.after_resolve(order_id, now);
    assert(model.machines.contains_key(order_id));
    assert(model.any_in_doubt());
    if after.paused {
        let id = choose|id: u64| #[trigger]
            after.machines.contains_key(id) && in_doubt(after.machines[id].state);
        assert(id != order_id && model.machines.contains_key(id));
    }
    if exists|id: u64|
        id != order_id && #[trigger] model.machines.contains_key(id) && in_doubt(
            model.machines[id].state,
        ) {
        let id = choose|id: u64|
            id != order_id && #[trigger] model.machines.contains_key(id) && in_doubt(
                model.machines[id].state,
            );
        assert(model.machines.remove(order_id).contains_key(id));
    }
}

/// A confirmed fill without a bracket is never passed over: it is flattened, or
/// the breaker is told.
pub proof fn unprotected_fill_is_never_dropped(
    model: ManagerModel,
    order_id: u64,
    logged_side: Option<Side>,
    now: UnixNanos,
)
    requires
        model.reconciling(order_id),
        model.orders.contains_key(order_id),
        !model.brackets.contains_key(order_id),
    ensures
        ({
            let outcome = model.resolve_outcome(order_id, BrokerOrderStatus::Filled, logged_side);
            let after = model.after_answer(order_id, BrokerOrderStatus::Filled, logged_side, now);
            &&& outcome is FilledFlattenRequired || outcome is FilledFlattenSideUnknown
            &&& outcome is FilledFlattenSideUnknown && model.armed ==> after.trips.len()
                == model.trips.len() + 1
            &&& outcome is FilledFlattenRequired ==> after.trips == model.trips
        }),
{
}

/// A reconciliation is escalated once: right after, none is overdue.
pub proof fn escalation_happens_once(model: ManagerModel, now: UnixNanos)
    ensures
        model.after_escalation(now).overdue(now) =~= Set::<u64>::empty(),
        model.after_escalation(now).after_escalation(now).trips =~= model.after_escalation(
            now,
        ).trips,
{
    assert(model.after_escalation(now).overdue(now) =~= Set::<u64>::empty());
}

/// A rejected entry never leads to an order, and its bracket is gone.
pub proof fn rejected_entry_sends_nothing(model: BracketModel, fill: FillEvent, room: bool)
    requires
        fill.fill_type is Rejected,
    ensures
        model.entry_fill_outcome(fill, room) != Some(FlattenContext::EntrySubmittedStop),
        model.entry_bracket(fill) matches Some(b) ==> !model.after_entry_fill(
            fill,
            room,
        ).brackets.contains_key(b) && model.after_entry_fill(fill, room).next_order_id
            == model.next_order_id,
{
}

/// A repeated entry fill neither sends a second stop-loss nor asks for a second
/// flattening. Where the first one found no room for the stop-loss, the bracket is
/// being flattened and stays so.
pub proof fn entry_fill_acts_once(
    model: BracketModel,
    fill: FillEvent,
    room: bool,
    room_again: bool,
)
    requires
        model.consistent(),
        !(fill.fill_type is Rejected),
        model.next_order_id < u64::MAX,
    ensures
        model.after_entry_fill(fill, room).entry_fill_outcome(fill, room_again) is None,
        model.after_entry_fill(fill, room).after_entry_fill(fill, room_again).next_order_id
            == model.after_entry_fill(fill, room).next_order_id,
        model.stop_is_due(fill) && !room ==> {
            let b = model.entry_bracket(fill)->Some_0;
            let once = model.after_entry_fill(fill, room);
            let entry = model.brackets[b].bracket.entry;
            &&& model.entry_fill_outcome(fill, room) == Some(
                FlattenContext::EntryFlatten {
                    flatten_side: entry.side.flipped(),
                    symbol_id: entry.symbol_id,
                    quantity: entry.quantity,
                },
            )
            &&& once.brackets[b].bracket.state is Flattening
            &&& once.after_entry_fill(fill, room_again).brackets[b].bracket.state is Flattening
        },
{
}

/// A closed bracket is gone with all its legs, one bracket less is open, and any
/// further fill of one of its legs is an orphan that changes nothing.
pub proof fn exit_closes_the_bracket(model: BracketModel, fill: FillEvent)
    requires
        model.consistent(),
        model.exit_bracket(fill) is Some,
    ensures
        ({
            let b = model.exit_bracket(fill)->Some_0;
            let e = model.brackets[b];
            let after = model.after_exit(fill);
            &&& !after.brackets.contains_key(b)
            &&& after.brackets.dom().len() == model.brackets.dom().len() - 1
            &&& forall|later: FillEvent|
                later.order_id == e.entry_order_id || e.is_exit(later.order_id) ==> {
                    &&& !after.legs.contains_key(later.order_id)
                    &&& #[trigger] after.exit_outcome(later) == (FlattenOutcome::Orphan {
                        order_id: later.order_id,
                    })
                    &&& after.after_exit(later) == after
                }
        }),
{
    let b = model.exit_bracket(fill)->Some_0;
    assert(model.brackets.contains_key(b));
}

/// A fill that is not one of an exit leg (a fill of an entry leg, or of an order
/// that belongs to no bracket) is an orphan and changes nothing.
pub proof fn other_fill_closes_no_bracket(model: BracketModel, fill: FillEvent)
    requires
        model.consistent(),
        !model.legs.contains_key(fill.order_id) || model.entry_bracket(fill) is Some,
    ensures
        model.exit_outcome(fill) == (FlattenOutcome::Orphan { order_id: fill.order_id }),
        model.after_exit(fill) == model,
{
}

/// An exit brings the way from the price of the entry to that of the exit, for
/// each contract, counted in the direction of the entry, as long as nothing is
/// clamped.
pub proof fn exit_profit_is_exact(model: BracketModel, fill: FillEvent)
    requires
        model.consistent(),
        model.exit_bracket(fill) is Some,
    ensures
        ({
            let e = model.brackets[model.exit_bracket(fill)->Some_0];
            let way = fill.fill_price.quarter_ticks - e.entry_fill_price->Some_0.quarter_ticks;
            let moved = way * fill.fill_size;
            let pnl = moved * e.bracket.entry.side.direction();
            e.entry_fill_price is Some && clamp_i64(way) == way && clamp_i64(moved) == moved
                && clamp_i64(pnl) == pnl ==> e.exit_pnl(fill) == pnl
        }),
{
}

/// Contracts counted up on the buying side and down on the selling side.
pub open spec fn signed_contracts(side: Side, count: u32) -> int {
    match side {
        Side::Buy => count as int,
        Side::Sell => -(count as int),
    }
}

/// The signed number of contracts of a position.
pub open spec fn contracts(p: Position) -> int {
    match p.side {
        Some(side) => signed_contracts(side, p.quantity),
        None => 0,
    }
}

/// A fill moves the position by exactly its own contracts, and a rejection by
/// none.
pub proof fn fills_move_positions_exactly(p: Position, fill: FillEvent)
    requires
        p.extended_by(fill) ==> p.quantity + fill.fill_size <= u32::MAX,
    ensures
        contracts(p.after_fill(fill)) == contracts(p) + if fill.fill_type is Rejected {
            0
        } else {
            signed_contracts(fill.side, fill.fill_size)
        },
{
}

/// A leg goes out with its own symbol, side and quantity and, where it is not a
/// market order, at its own price. It stays behind only where that price is
/// missing.
pub proof fn legs_go_out_as_ordered(
    order_id: u64,
    decision_id: u64,
    leg: OrderParams,
    now: UnixNanos,
)
    ensures
        leg_order(order_id, decision_id, leg, now) is Some <==> leg.order_type is Market
            || leg.price is Some,
        leg_order(order_id, decision_id, leg, now) matches Some(order) ==> {
            &&& order.order_id == order_id
            &&& order.decision_id == decision_id
            &&& order.timestamp == now
            &&& order.symbol_id == leg.symbol_id
            &&& order.side == leg.side
            &&& order.quantity == leg.quantity
            &&& match order.order_type {
                OrderType::Market => leg.order_type is Market,
                OrderType::Limit { price } => leg.order_type is Limit && leg.price == Some(price),
                OrderType::Stop { trigger } => leg.order_type is Stop && leg.price == Some(trigger),
            }
        },
{
}

/// The first fill of an entry sends the bracket's own stop-loss out where that has
/// a price and the queue has room, and otherwise asks to flatten exactly what the
/// entry built up. Either way the price of the fill is remembered, and no other
/// bracket is touched.
pub proof fn entry_fill_protects_the_position(model: BracketModel, fill: FillEvent, room: bool)
    requires
        model.legs.contains_key(fill.order_id),
        model.brackets.contains_key(model.legs[fill.order_id]),
        model.brackets[model.legs[fill.order_id]].entry_order_id == fill.order_id,
        model.brackets[model.legs[fill.order_id]].bracket.state is NoBracket,
        !(fill.fill_type is Rejected),
        model.next_order_id < u64::MAX,
    ensures
        ({
            let b = model.legs[fill.order_id];
            let e = model.brackets[b];
            let stop = e.bracket.stop_loss;
            let after = model.after_entry_fill(fill, room);
            let sent = room && (stop.order_type is Market || stop.price is Some);
            let entry = after.brackets[b];
            &&& after.brackets.contains_key(b)
            &&& entry.entry_fill_price == Some(fill.fill_price)
            &&& entry.entry_order_id == e.entry_order_id
            &&& entry.bracket.entry == e.bracket.entry
            &&& entry.bracket.stop_loss == stop
            &&& entry.bracket.take_profit == e.bracket.take_profit
            &&& entry.bracket.decision_id == e.bracket.decision_id
            &&& after.next_order_id == model.next_order_id + 1
            &&& forall|other: u64|
                other != b ==> (#[trigger] after.brackets.contains_key(other)
                    == model.brackets.contains_key(other)) && (model.brackets.contains_key(other)
                    ==> after.brackets[other] == model.brackets[other])
            &&& sent ==> {
                &&& model.entry_fill_outcome(fill, room) == Some(FlattenContext::EntrySubmittedStop)
                &&& entry.bracket.state is EntryOnly
                &&& entry.stop_loss_order_id == Some(model.next_order_id)
                &&& after.legs.contains_key(model.next_order_id)
                &&& after.legs[model.next_order_id] == b
                &&& model.stop_order(fill) matches Some(order) && order.order_id
                    == model.next_order_id && order.side == stop.side && order.quantity
                    == stop.quantity && order.symbol_id == stop.symbol_id && order.decision_id
                    == e.bracket.decision_id && order.timestamp == fill.timestamp
            }
            &&& !sent ==> {
                &&& entry.bracket.state is Flattening
                &&& entry.stop_loss_order_id == e.stop_loss_order_id
                &&& after.legs == model.legs
                &&& model.entry_fill_outcome(fill, room) matches Some(
                    FlattenContext::EntryFlatten { flatten_side, symbol_id, quantity },
                ) && flatten_side != e.bracket.entry.side && symbol_id == e.bracket.entry.symbol_id
                    && quantity == e.bracket.entry.quantity
            }
        }),
{
}

/// A confirmed stop-loss sends the bracket's own take-profit out where that has a
/// price and the queue has room; either way the position counts as protected and
/// no other bracket is touched.
pub proof fn stop_confirmation_sends_the_take_profit(
    model: BracketModel,
    bracket_id: u64,
    now: UnixNanos,
    room: bool,
)
    requires
        model.brackets.contains_key(bracket_id),
        model.brackets[bracket_id].bracket.state is EntryOnly,
        model.next_order_id < u64::MAX,
    ensures
        ({
            let e = model.brackets[bracket_id];
            let profit = e.bracket.take_profit;
            let after = model.after_stop_confirmed(bracket_id, now, room);
            let sent = room && (profit.order_type is Market || profit.price is Some);
            let entry = after.brackets[bracket_id];
            &&& model.profit_is_due(bracket_id)
            &&& after.brackets.contains_key(bracket_id)
            &&& entry.bracket.state is EntryAndStop
            &&& entry.bracket.entry == e.bracket.entry
            &&& entry.bracket.take_profit == profit
            &&& entry.bracket.stop_loss == e.bracket.stop_loss
            &&& entry.stop_loss_order_id == e.stop_loss_order_id
            &&& entry.entry_fill_price == e.entry_fill_price
            &&& after.next_order_id == model.next_order_id + 1
            &&& forall|other: u64|
                other != bracket_id ==> (#[trigger] after.brackets.contains_key(other)
                    == model.brackets.contains_key(other)) && (model.brackets.contains_key(other)
                    ==> after.brackets[other] == model.brackets[other])
            &&& sent ==> {
                &&& entry.take_profit_order_id == Some(model.next_order_id)
                &&& after.legs.contains_key(model.next_order_id)
                &&& after.legs[model.next_order_id] == bracket_id
                &&& model.profit_order(bracket_id, now) matches Some(order) && order.order_id
                    == model.next_order_id && order.side == profit.side && order.quantity
                    == profit.quantity && order.symbol_id == profit.symbol_id && order.decision_id
                    == e.bracket.decision_id && order.timestamp == now
            }
            &&& !sent ==> entry.take_profit_order_id == e.take_profit_order_id && after.legs
                == model.legs
        }),
{
}

/// An exit fill is booked as what it is: the take-profit or the stop-loss of its
/// bracket, with the way from the entry to the exit as its result, counted up for
/// a bought entry and down for a sold one. The journal gets the trade as it was
/// filled.
pub proof fn exits_are_booked_as_filled(model: BracketModel, fill: FillEvent)
    requires
        model.legs.contains_key(fill.order_id),
        model.brackets.contains_key(model.legs[fill.order_id]),
        model.brackets[model.legs[fill.order_id]].entry_fill_price is Some,
        model.brackets[model.legs[fill.order_id]].take_profit_order_id == Some(fill.order_id)
            || model.brackets[model.legs[fill.order_id]].stop_loss_order_id == Some(
            fill.order_id,
        ),
    ensures
        ({
            let b = model.legs[fill.order_id];
            let e = model.brackets[b];
            let after = model.after_exit(fill);
            let n = model.log.offered.len() as int;
            let way = fill.fill_price.quarter_ticks - e.entry_fill_price->Some_0.quarter_ticks;
            let won = if e.bracket.entry.side is Buy {
                way * fill.fill_size
            } else {
                -(way * fill.fill_size)
            };
            let fits = i64::MIN < way <= i64::MAX && i64::MIN < way * fill.fill_size <= i64::MAX;
            &&& match model.exit_outcome(fill) {
                FlattenOutcome::TakeProfit {
                    bracket_id,
                    decision_id,
                    realized_pnl_quarter_ticks,
                } => e.take_profit_order_id == Some(fill.order_id) && bracket_id == b && decision_id
                    == e.bracket.decision_id && (fits ==> realized_pnl_quarter_ticks == won),
                FlattenOutcome::StopLoss {
                    bracket_id,
                    decision_id,
                    realized_pnl_quarter_ticks,
                } => e.take_profit_order_id != Some(fill.order_id) && bracket_id == b && decision_id
                    == e.bracket.decision_id && (fits ==> realized_pnl_quarter_ticks == won),
                FlattenOutcome::Orphan { .. } => false,
            }
            &&& !after.brackets.contains_key(b)
            &&& forall|other: u64|
                other != b ==> (#[trigger] after.brackets.contains_key(other)
                    == model.brackets.contains_key(other)) && (model.brackets.contains_key(other)
                    ==> after.brackets[other] == model.brackets[other])
            &&& after.next_order_id == model.next_order_id
            &&& after.log.offered.len() == n + 2
            &&& after.log.offered[n] matches EventModel::Trade {
                timestamp,
                decision_id,
                order,
                symbol_id,
                side,
                price,
                size,
                kind,
                source: _,
            } && timestamp == fill.timestamp && decision_id == Some(e.bracket.decision_id) && order
                == Some(fill.order_id) && symbol_id == e.bracket.entry.symbol_id && side
                == fill.side && price == fill.fill_price && size == fill.fill_size && kind == (
            if e.take_profit_order_id == Some(fill.order_id) {
                "tp_fill"@
            } else {
                "sl_fill"@
            })
        }),
{
    let e = model.brackets[model.legs[fill.order_id]];
    let way = fill.fill_price.quarter_ticks - e.entry_fill_price->Some_0.quarter_ticks;
    let moved = way * fill.fill_size;
    assert(moved * 1 == moved && moved * -1 == -moved);
    match e.bracket.entry.side {
        Side::Buy => {
            assert(e.bracket.entry.side.direction() == 1);
        },
        Side::Sell => {
            assert(e.bracket.entry.side.direction() == -1);
        },
    }
    if i64::MIN < way <= i64::MAX && i64::MIN < moved <= i64::MAX {
        assert(clamp_i64(way) == way);
        assert(clamp_i64(clamp_i64(way) * fill.fill_size) == moved);
    }
}

/// Whether a journal entry notes that an order went from one state to the other.
pub open spec fn notes_change(
    entry: EventModel,
    at: UnixNanos,
    order: u64,
    decision: u64,
    from: Seq<char>,
    to: Seq<char>,
) -> bool {
    entry matches EventModel::OrderState {
        timestamp,
        order_id,
        decision_id,
        from_state,
        to_state,
        source: _,
    } && timestamp == at && order_id == order && decision_id == Some(decision) && from_state == from
        && to_state == to
}

/// A fill is refused for its size exactly where it fills nothing, more than is
/// left, or claims to leave as much as there was; a rejection has no size. The
/// refusal names the fill's size and what is left of the order.
pub proof fn fills_fit_the_order(model: ManagerModel, fill: FillEvent)
    requires
        model.orders.contains_key(fill.order_id),
    ensures
        ({
            let left = model.orders[fill.order_id].remaining_quantity;
            let empty = fill.fill_size == 0;
            let too_much = fill.fill_size > left;
            let outcome = model.fill_outcome(fill);
            &&& fill.fill_type is Rejected ==> !(outcome is InvalidFillSize)
            &&& fill.fill_type == FillType::Full ==> (outcome is InvalidFillSize <==> empty
                || too_much)
            &&& fill.fill_type matches FillType::Partial { remaining } ==> (outcome
                is InvalidFillSize <==> empty || too_much || remaining >= left)
            &&& outcome matches FillOutcome::InvalidFillSize {
                order_id,
                fill_size,
                remaining_quantity,
            } ==> order_id == fill.order_id && fill_size == fill.fill_size && remaining_quantity
                == left && model.after_fill(fill) == model
        }),
{
}

/// An order that is routed takes its fills: a full one closes it as filled, a
/// partial one leaves it open with what the fill says is left, and a rejection of
/// an order that is not confirmed, or that is partly filled, closes it as rejected.
/// A fill of an order that was only submitted confirms it on the way. Every step is
/// journaled, and the row of a closed order is closed in the log.
pub proof fn routed_orders_take_their_fills(model: ManagerModel, fill: FillEvent)
    requires
        model.orders.contains_key(fill.order_id),
        model.machines.contains_key(fill.order_id) ==> model.machines[fill.order_id].state
            == model.orders[fill.order_id].state,
        !(model.fill_outcome(fill) is InvalidFillSize),
    ensures
        ({
            let id = fill.order_id;
            let order = model.orders[id];
            let state = order.state;
            let after = model.after_fill(fill);
            let outcome = model.fill_outcome(fill);
            let n = model.log.offered.len() as int;
            let confirmed_here = state == OrderState::Submitted && !(fill.fill_type is Rejected);
            let taken = if fill.fill_type is Rejected {
                state == OrderState::Submitted || state == OrderState::PartialFill
            } else {
                state == OrderState::Submitted || state == OrderState::Confirmed || state
                    == OrderState::PartialFill
            };
            let steps: int = if confirmed_here {
                2
            } else {
                1
            };
            &&& !taken ==> {
                &&& outcome is InvalidTransition
                &&& outcome->InvalidTransition_order_id == id
                &&& outcome->from == state
                &&& outcome->to == OrderState::Filled <==> fill.fill_type is Full
                &&& outcome->to == OrderState::PartialFill <==> fill.fill_type is Partial
                &&& outcome->to == OrderState::Rejected <==> fill.fill_type is Rejected
                &&& after.orders == model.orders
                &&& after.machines == model.machines
                &&& after.wal_ops == model.wal_ops
                &&& after.log == model.log
            }
            &&& taken && fill.fill_type is Full ==> outcome == (FillOutcome::Filled {
                order_id: id,
                decision_id: order.decision_id,
            })
            &&& taken && fill.fill_type is Partial ==> outcome == (FillOutcome::Partial {
                order_id: id,
                decision_id: order.decision_id,
                remaining: fill.fill_type->remaining,
            })
            &&& taken && fill.fill_type is Rejected ==> outcome == (FillOutcome::Rejected {
                order_id: id,
                decision_id: order.decision_id,
                reason: fill.fill_type->reason,
            })
            &&& taken ==> after.log.offered.len() == n + steps
            &&& taken && confirmed_here ==> notes_change(
                after.log.offered[n],
                fill.timestamp,
                id,
                fill.decision_id,
                "Submitted"@,
                "Confirmed"@,
            )
            &&& taken && fill.fill_type is Full ==> notes_change(
                after.log.offered[n + steps - 1],
                fill.timestamp,
                id,
                fill.decision_id,
                if confirmed_here {
                    "Confirmed"@
                } else {
                    state.name()
                },
                "Filled"@,
            )
            &&& taken && fill.fill_type is Partial ==> notes_change(
                after.log.offered[n + steps - 1],
                fill.timestamp,
                id,
                fill.decision_id,
                if confirmed_here {
                    "Confirmed"@
                } else {
                    state.name()
                },
                "PartialFill"@,
            )
            &&& taken && fill.fill_type is Rejected ==> notes_change(
                after.log.offered[n],
                fill.timestamp,
                id,
                fill.decision_id,
                state.name(),
                "Rejected"@,
            )
            &&& taken && fill.fill_type is Partial ==> {
                &&& after.orders.contains_key(id)
                &&& after.orders[id].remaining_quantity == fill.fill_type->remaining
                &&& after.orders[id].state == OrderState::PartialFill
                &&& after.orders[id].order_id == order.order_id
                &&& after.orders[id].decision_id == order.decision_id
                &&& after.orders[id].symbol_id == order.symbol_id
                &&& after.orders[id].original_quantity == order.original_quantity
                &&& model.machines.contains_key(id) ==> after.machines.contains_key(id)
                    && after.machines[id].state == OrderState::PartialFill
                    && after.machines[id].submitted_at == model.machines[id].submitted_at
                &&& after.wal_ops == model.wal_ops
            }
            &&& taken && !(fill.fill_type is Partial) ==> {
                &&& !after.orders.contains_key(id)
                &&& !after.machines.contains_key(id)
                &&& !model.wal_enabled ==> after.wal_ops == model.wal_ops
                &&& model.wal_enabled ==> after.wal_ops.len() == model.wal_ops.len() + 1
                    && after.wal_ops.drop_last() == model.wal_ops && after.wal_ops.last() == (
                WalOp::MarkResolved {
                    order_id: id,
                    final_state: if fill.fill_type is Full {
                        OrderState::Filled
                    } else {
                        OrderState::Rejected
                    },
                    failure_at: Some(fill.timestamp),
                })
            }
            &&& after.trips == model.trips || !taken
            &&& after.paused == model.paused
            &&& after.timeout == model.timeout
            &&& after.armed == model.armed
            &&& after.wal_enabled == model.wal_enabled
        }),
{
    let id = fill.order_id;
    let after = model.after_fill(fill);
    super::state_machine::one_step_reaches(
        model.confirmed_by(fill).orders[id].state,
        OrderState::Filled,
    );
    super::state_machine::one_step_reaches(
        model.confirmed_by(fill).orders[id].state,
        OrderState::PartialFill,
    );
    super::state_machine::one_step_reaches(
        model.confirmed_by(fill).orders[id].state,
        OrderState::Rejected,
    );
    if model.wal_enabled && !(fill.fill_type is Partial) && after.wal_ops.len()
        == model.wal_ops.len() + 1 {
        assert(after.wal_ops.drop_last() =~= model.wal_ops);
    }
}

/// An order that goes out is followed from then on as it was ordered: submitted at
/// its own time, with nothing filled, under its bracket if it has one. Nothing else
/// is touched, and the step from new to submitted is journaled.
pub proof fn submissions_are_followed(
    model: ManagerModel,
    event: OrderEvent,
    bracket_id: Option<u64>,
)
    requires
        !model.knows(event.order_id),
        !model.brackets.contains_key(event.order_id),
    ensures
        ({
            let id = event.order_id;
            let after = model.after_submit(event, bracket_id);
            let n = model.log.offered.len() as int;
            &&& after.orders.contains_key(id)
            &&& after.orders[id].order_id == id
            &&& after.orders[id].decision_id == event.decision_id
            &&& after.orders[id].symbol_id == event.symbol_id
            &&& after.orders[id].original_quantity == event.quantity
            &&& after.orders[id].remaining_quantity == event.quantity
            &&& after.orders[id].state == OrderState::Submitted
            &&& after.machines.contains_key(id)
            &&& after.machines[id].state == OrderState::Submitted
            &&& after.machines[id].order_id == id
            &&& after.machines[id].decision_id == event.decision_id
            &&& after.machines[id].submitted_at == Some(event.timestamp)
            &&& after.machines[id].breaker_armed == model.armed
            &&& after.orders.remove(id) == model.orders
            &&& after.machines.remove(id) == model.machines
            &&& bracket_id is None ==> after.brackets == model.brackets
            &&& bracket_id is Some ==> after.brackets.remove(id) == model.brackets
                && after.brackets.contains_key(id) && after.brackets[id] == bracket_id->Some_0
            &&& after.recon == model.recon
            &&& after.wal_ops == model.wal_ops
            &&& after.paused == model.paused
            &&& after.trips == model.trips
            &&& after.log.offered.len() == n + 1
            &&& notes_change(
                after.log.offered[n],
                event.timestamp,
                id,
                event.decision_id,
                "Idle"@,
                "Submitted"@,
            )
        }),
{
    let id = event.order_id;
    let after = model.after_submit(event, bracket_id);
    assert(after.orders.remove(id) =~= model.orders);
    assert(after.machines.remove(id) =~= model.machines);
    assert(model.brackets.insert(id, bracket_id->Some_0).remove(id) =~= model.brackets);
}

/// An order that found the broker queue full is not followed; only its row in the
/// log, where there is a log, is closed as rejected.
pub proof fn a_full_queue_closes_the_row(model: ManagerModel, order_id: u64)
    ensures
        ({
            let after = model.after_queue_full(order_id);
            &&& after.orders == model.orders
            &&& after.machines == model.machines
            &&& after.recon == model.recon
            &&& after.brackets == model.brackets
            &&& after.log == model.log
            &&& after.paused == model.paused
            &&& after.trips == model.trips
            &&& !model.wal_enabled ==> after.wal_ops == model.wal_ops
            &&& model.wal_enabled ==> after.wal_ops == model.wal_ops.push(
                WalOp::MarkResolved {
                    order_id,
                    final_state: OrderState::Rejected,
                    failure_at: None,
                },
            )
        }),
{
}

/// An order runs out of time exactly when it was submitted, not confirmed, and more
/// than the timeout has passed since; the very instant of the timeout is still in
/// time. A clock that ran backwards lets none run out.
pub proof fn time_runs_out_after_the_timeout(model: ManagerModel, id: u64, now: UnixNanos)
    ensures
        model.expired(now).contains(id) <==> model.machines.contains_key(id)
            && model.machines[id].state == OrderState::Submitted
            && model.machines[id].submitted_at is Some && now.nanos
            - model.machines[id].submitted_at->Some_0.nanos > model.timeout,
        model.expired(now).contains(id) == (model.machines.contains_key(id) && model.is_expired(
            id,
            now,
        )),
{
}

/// An order that ran out of time is in doubt from then on, in every place it is
/// kept, and no other order is touched. The step is journaled and the log told.
pub proof fn running_out_of_time_puts_in_doubt(model: ManagerModel, order_id: u64, now: UnixNanos)
    requires
        model.machines.contains_key(order_id),
        model.machines[order_id].state is Submitted,
    ensures
        ({
            let after = model.after_timeout(order_id, now);
            let n = model.log.offered.len() as int;
            &&& after.paused
            &&& after.machines.contains_key(order_id)
            &&& after.machines[order_id].state == OrderState::Uncertain
            &&& after.machines[order_id].submitted_at == model.machines[order_id].submitted_at
            &&& after.machines.remove(order_id) == model.machines.remove(order_id)
            &&& after.orders.contains_key(order_id) == model.orders.contains_key(order_id)
            &&& model.orders.contains_key(order_id) ==> after.orders[order_id].state
                == OrderState::Uncertain && after.orders[order_id].remaining_quantity
                == model.orders[order_id].remaining_quantity
                && after.orders[order_id].original_quantity
                == model.orders[order_id].original_quantity && after.orders[order_id].symbol_id
                == model.orders[order_id].symbol_id && after.orders[order_id].decision_id
                == model.orders[order_id].decision_id
            &&& after.orders.remove(order_id) == model.orders.remove(order_id)
            &&& after.recon == model.recon
            &&& after.brackets == model.brackets
            &&& after.trips == model.trips
            &&& !model.wal_enabled ==> after.wal_ops == model.wal_ops
            &&& model.wal_enabled ==> after.wal_ops == model.wal_ops.push(
                WalOp::UpdateState { order_id, new_state: OrderState::Uncertain },
            )
            &&& after.log.offered.len() == n + 1
            &&& notes_change(
                after.log.offered[n],
                now,
                order_id,
                model.machines[order_id].decision_id,
                "Submitted"@,
                "Uncertain"@,
            )
        }),
{
    let after = model.after_timeout(order_id, now);
    assert(after.machines.remove(order_id) =~= model.machines.remove(order_id));
    assert(after.orders.remove(order_id) =~= model.orders.remove(order_id));
}

/// Asking the broker starts the clock of the reconciliation and moves the order from
/// uncertain to pending, in every place it is kept; no other order is touched.
pub proof fn asking_starts_the_clock(model: ManagerModel, order_id: u64, now: UnixNanos)
    requires
        model.machines.contains_key(order_id),
        model.machines[order_id].state is Uncertain,
    ensures
        ({
            let after = model.after_begin_recon(order_id, now);
            let n = model.log.offered.len() as int;
            &&& after.recon.contains_key(order_id)
            &&& after.recon[order_id] == now
            &&& after.recon.remove(order_id) == model.recon.remove(order_id)
            &&& after.machines.contains_key(order_id)
            &&& after.machines[order_id].state == OrderState::PendingRecon
            &&& after.machines.remove(order_id) == model.machines.remove(order_id)
            &&& after.reconciling(order_id)
            &&& model.orders.contains_key(order_id) ==> after.orders[order_id].state
                == OrderState::PendingRecon && after.orders[order_id].original_quantity
                == model.orders[order_id].original_quantity && after.orders[order_id].symbol_id
                == model.orders[order_id].symbol_id
            &&& after.orders.remove(order_id) == model.orders.remove(order_id)
            &&& after.paused == model.paused
            &&& after.brackets == model.brackets
            &&& after.trips == model.trips
            &&& !model.wal_enabled ==> after.wal_ops == model.wal_ops
            &&& model.wal_enabled ==> after.wal_ops == model.wal_ops.push(
                WalOp::UpdateState { order_id, new_state: OrderState::PendingRecon },
            )
            &&& after.log.offered.len() == n + 1
            &&& notes_change(
                after.log.offered[n],
                now,
                order_id,
                model.machines[order_id].decision_id,
                "Uncertain"@,
                "PendingRecon"@,
            )
        }),
{
    let after = model.after_begin_recon(order_id, now);
    assert(after.machines.remove(order_id) =~= model.machines.remove(order_id));
    assert(after.orders.remove(order_id) =~= model.orders.remove(order_id));
    assert(after.recon.remove(order_id) =~= model.recon.remove(order_id));
}

/// What follows from the broker's answer about an order that is being reconciled. A
/// filled order without a bracket is to be flattened: all of it, in its own symbol,
/// on the side that is not the one in its log row; where no row tells the side, that
/// is said instead. An order that is not being reconciled has no answer.
pub proof fn answers_are_acted_on(
    model: ManagerModel,
    order_id: u64,
    status: BrokerOrderStatus,
    logged_side: Option<Side>,
)
    ensures
        ({
            let asked = model.machines.contains_key(order_id) && model.machines[order_id].state
                == OrderState::PendingRecon;
            let outcome = model.resolve_outcome(order_id, status, logged_side);
            let bare = asked && status == BrokerOrderStatus::Filled
                && !model.brackets.contains_key(order_id) && model.orders.contains_key(order_id);
            let order = model.orders[order_id];
            &&& model.reconciling(order_id) == asked
            &&& !asked ==> outcome == ResolveOutcome::NotApplicable
            &&& outcome == ResolveOutcome::KeepPolling <==> asked && status
                == BrokerOrderStatus::StillPending
            &&& outcome == ResolveOutcome::RejectedNoPosition <==> asked && (status
                == BrokerOrderStatus::Rejected || status == BrokerOrderStatus::Unknown)
            &&& outcome == ResolveOutcome::FilledBracketProtects <==> asked && status
                == BrokerOrderStatus::Filled && model.brackets.contains_key(order_id)
            &&& bare && model.wal_enabled && logged_side is Some ==> {
                &&& outcome is FilledFlattenRequired
                &&& outcome->side != logged_side->Some_0
                &&& outcome->quantity == order.original_quantity
                &&& outcome->FilledFlattenRequired_symbol_id == order.symbol_id
            }
            &&& bare && !(model.wal_enabled && logged_side is Some) ==> {
                &&& outcome is FilledFlattenSideUnknown
                &&& outcome->order_id == order_id
                &&& outcome->FilledFlattenSideUnknown_symbol_id == order.symbol_id
            }
        }),
{
}

/// A final answer closes the order: it is followed no more, its row is closed as
/// resolved, and the step is journaled. The breaker is told, and once more the
/// journal, exactly where a filled order cannot be flattened because its side is not
/// known. An answer that is not final changes nothing.
pub proof fn final_answers_close_the_order(
    model: ManagerModel,
    order_id: u64,
    status: BrokerOrderStatus,
    logged_side: Option<Side>,
    now: UnixNanos,
)
    ensures
        ({
            let after = model.after_answer(order_id, status, logged_side, now);
            let n = model.log.offered.len() as int;
            let asked = model.machines.contains_key(order_id) && model.machines[order_id].state
                == OrderState::PendingRecon;
            let closes = asked && status != BrokerOrderStatus::StillPending;
            let stuck = closes && status == BrokerOrderStatus::Filled
                && !model.brackets.contains_key(order_id) && model.orders.contains_key(order_id)
                && !(model.wal_enabled && logged_side is Some);
            &&& !closes ==> after == model
            &&& closes ==> {
                &&& after.machines == model.machines.remove(order_id)
                &&& after.orders == model.orders.remove(order_id)
                &&& after.brackets == model.brackets.remove(order_id)
                &&& after.recon == model.recon.remove(order_id)
                &&& !model.wal_enabled ==> after.wal_ops == model.wal_ops
                &&& model.wal_enabled ==> after.wal_ops == model.wal_ops.push(
                    WalOp::MarkResolved {
                        order_id,
                        final_state: OrderState::Resolved,
                        failure_at: None,
                    },
                )
                &&& notes_change(
                    after.log.offered[n],
                    now,
                    order_id,
                    model.machines[order_id].decision_id,
                    "PendingRecon"@,
                    "Resolved"@,
                )
            }
            &&& closes && !stuck ==> after.trips == model.trips && after.log.offered.len() == n + 1
            &&& stuck ==> after.log.offered.len() == n + 2
            &&& stuck && !model.armed ==> after.trips == model.trips
            &&& stuck && model.armed ==> {
                &&& after.trips.len() == model.trips.len() + 1
                &&& after.trips.drop_last() == model.trips
                &&& after.trips.last().from == OrderState::PendingRecon
                &&& after.trips.last().trigger == super::state_machine::OrderTransition::Resolve
            }
            &&& after.timeout == model.timeout
            &&& after.armed == model.armed
            &&& after.wal_enabled == model.wal_enabled
        }),
{
    let after = model.after_answer(order_id, status, logged_side, now);
    if after.trips.len() == model.trips.len() + 1 {
        assert(after.trips.drop_last() =~= model.trips);
    }
}

/// A reconciliation is overdue from its thirtieth second on. The breaker is then
/// told once for it, its clock stops, and the order itself stays as it is.
pub proof fn reconciliations_are_overdue_after_thirty_seconds(
    model: ManagerModel,
    id: u64,
    now: UnixNanos,
)
    requires
        model.recon.dom().finite(),
    ensures
        ({
            let after = model.after_escalation(now);
            let overdue = model.recon.contains_key(id) && now.nanos - model.recon[id].nanos
                >= 30_000_000_000;
            &&& model.overdue(now).contains(id) <==> overdue
            &&& after.recon.contains_key(id) <==> model.recon.contains_key(id) && !overdue
            &&& after.recon.contains_key(id) ==> after.recon[id] == model.recon[id]
            &&& after.orders == model.orders
            &&& after.machines == model.machines
            &&& after.brackets == model.brackets
            &&& after.paused == model.paused
            &&& after.log == model.log
            &&& after.wal_ops == model.wal_ops
            &&& !model.armed ==> after.trips == model.trips
            &&& model.armed ==> {
                &&& after.trips.len() == model.trips.len() + model.overdue(now).len()
                &&& forall|i: int|
                    0 <= i < model.trips.len() ==> #[trigger] after.trips[i] == model.trips[i]
                &&& forall|i: int|
                    model.trips.len() <= i < after.trips.len() ==> (#[trigger] after.trips[i]).from
                        == OrderState::PendingRecon && after.trips[i].trigger
                        == super::state_machine::OrderTransition::Resolve
            }
        }),
{
}

/// The fate of an order is unknown exactly while it is uncertain or being asked
/// about.
pub proof fn doubt_is_two_states(state: OrderState)
    ensures
        in_doubt(state) <==> state == OrderState::Uncertain || state == OrderState::PendingRecon,
{
}

/// Fills are applied one after the other: those of one batch and then those of the
/// next leave what all of them leave in one.
pub proof fn fills_apply_in_order(model: ManagerModel, first: Seq<FillEvent>, later: Seq<FillEvent>)
    ensures
        model.after_fills(first + later) == model.after_fills(first).after_fills(later),
        model.after_fills(Seq::empty()) == model,
        first.len() == 1 ==> model.after_fills(first) == model.after_fill(first[0]),
    decreases later.len(),
{
    if later.len() == 0 {
        assert(first + later =~= first);
    } else {
        assert((first + later).drop_last() =~= first + later.drop_last());
        assert((first + later).last() == later.last());
        fills_apply_in_order(model, first, later.drop_last());
    }
    if first.len() == 1 {
        assert(first.drop_last() =~= Seq::<FillEvent>::empty());
        assert(model.after_fills(first.drop_last()) == model);
    }
}

/// Whether a journal entry tells something of a bracket.
pub open spec fn tells_of_bracket(
    entry: EventModel,
    at: UnixNanos,
    bracket_id: u64,
    decision_id: u64,
    what: Seq<char>,
) -> bool {
    entry matches EventModel::System { timestamp, category, message } && timestamp == at && category
        == "bracket"@ && message == "bracket "@ + dec_nat(bracket_id as nat) + " (decision "@
        + dec_nat(decision_id as nat) + ")"@ + what
}

/// A rejected entry ends its bracket before anything is held: it is reported with
/// its reason, journaled, and forgotten together with its leg. No other bracket and
/// no other leg is touched.
pub proof fn rejected_entries_are_reported(model: BracketModel, fill: FillEvent, room: bool)
    requires
        model.legs.contains_key(fill.order_id),
        model.brackets.contains_key(model.legs[fill.order_id]),
        model.brackets[model.legs[fill.order_id]].entry_order_id == fill.order_id,
        fill.fill_type is Rejected,
    ensures
        ({
            let b = model.legs[fill.order_id];
            let e = model.brackets[b];
            let after = model.after_entry_fill(fill, room);
            let n = model.log.offered.len() as int;
            &&& model.entry_fill_outcome(fill, room) == Some(
                FlattenContext::EntryRejected {
                    bracket_id: b,
                    decision_id: e.bracket.decision_id,
                    reason: fill.fill_type->reason,
                },
            )
            &&& after.brackets == model.brackets.remove(b)
            &&& after.legs == model.legs.remove(fill.order_id)
            &&& after.next_order_id == model.next_order_id
            &&& after.log.offered.len() == n + 1
            &&& tells_of_bracket(
                after.log.offered[n],
                fill.timestamp,
                b,
                e.bracket.decision_id,
                " entry rejected: "@ + fill.fill_type->reason.name(),
            )
        }),
{
    let b = model.legs[fill.order_id];
    let tail = " entry rejected: "@ + fill.fill_type->reason.name();
    let n = model.log.offered.len() as int;
    let entry = model.after_entry_fill(fill, room).log.offered[n];
    assert(entry == super::bracket::bracket_note(
        fill.timestamp,
        b,
        model.brackets[b].bracket.decision_id,
        tail,
    ));
}

/// A later fill of an entry changes nothing but the price at which its bracket was
/// entered, and a fill of no entry changes nothing at all.
pub proof fn later_entry_fills_move_the_price(model: BracketModel, fill: FillEvent, room: bool)
    requires
        !(fill.fill_type is Rejected),
    ensures
        ({
            let b = model.legs[fill.order_id];
            let e = model.brackets[b];
            let after = model.after_entry_fill(fill, room);
            let is_entry = model.legs.contains_key(fill.order_id) && model.brackets.contains_key(b)
                && e.entry_order_id == fill.order_id;
            &&& !is_entry ==> after == model && model.entry_fill_outcome(fill, room) is None
            &&& is_entry && !(e.bracket.state is NoBracket) ==> {
                &&& model.entry_fill_outcome(fill, room) is None
                &&& after.brackets.contains_key(b)
                &&& after.brackets[b].entry_fill_price == Some(fill.fill_price)
                &&& after.brackets[b].bracket == e.bracket
                &&& after.brackets[b].entry_order_id == e.entry_order_id
                &&& after.brackets[b].stop_loss_order_id == e.stop_loss_order_id
                &&& after.brackets[b].take_profit_order_id == e.take_profit_order_id
                &&& after.brackets.remove(b) == model.brackets.remove(b)
                &&& after.legs == model.legs
                &&& after.log == model.log
                &&& after.next_order_id == model.next_order_id
            }
        }),
{
    let b = model.legs[fill.order_id];
    assert(model.after_entry_fill(fill, room).brackets.remove(b) =~= model.brackets.remove(b));
}

/// With its bracket every leg of it is forgotten, and no leg of another.
pub proof fn closed_brackets_leave_no_leg(model: BracketModel, fill: FillEvent, leg: u64)
    requires
        model.exit_bracket(fill) is Some,
    ensures
        ({
            let e = model.brackets[model.legs[fill.order_id]];
            let after = model.after_exit(fill);
            let of_bracket = leg == e.entry_order_id || e.stop_loss_order_id == Some(leg)
                || e.take_profit_order_id == Some(leg);
            &&& model.exit_bracket(fill) == Some(model.legs[fill.order_id])
            &&& after.legs.contains_key(leg) <==> model.legs.contains_key(leg) && !of_bracket
            &&& after.legs.contains_key(leg) ==> after.legs[leg] == model.legs[leg]
        }),
{
}

/// A fill closes a bracket exactly when it is of a leg that its bracket knows as the
/// take-profit or the stop-loss.
pub proof fn exits_are_take_profits_and_stops(model: BracketModel, fill: FillEvent)
    ensures
        model.exit_bracket(fill) is Some <==> model.legs.contains_key(fill.order_id)
            && model.brackets.contains_key(model.legs[fill.order_id]) && (
        model.brackets[model.legs[fill.order_id]].take_profit_order_id == Some(fill.order_id)
            || model.brackets[model.legs[fill.order_id]].stop_loss_order_id == Some(
            fill.order_id,
        )),
        model.exit_bracket(fill) is None ==> model.after_exit(fill) == model && model.exit_outcome(
            fill,
        ) == (FlattenOutcome::Orphan { order_id: fill.order_id }),
{
}

/// After a search for orders that ran out of time, exactly those that were submitted,
/// not confirmed, and overdue are uncertain; every other order is as it was. Orders
/// are neither lost nor found, and submissions are paused from the first such order
/// on.
pub proof fn only_overdue_orders_become_uncertain(
    model: ManagerModel,
    after: ManagerModel,
    id: u64,
    now: UnixNanos,
)
    requires
        model.timed_out(after, now),
        model.machines.contains_key(id),
    ensures
        ({
            let was = model.machines[id];
            let is = after.machines[id];
            let overdue = was.state == OrderState::Submitted && was.submitted_at is Some && now.nanos
                - was.submitted_at->Some_0.nanos > model.timeout;
            &&& after.machines.contains_key(id)
            &&& overdue ==> is.state == OrderState::Uncertain && is.submitted_at == was.submitted_at
                && is.decision_id == was.decision_id && after.paused
            &&& !overdue ==> is == was
            &&& after.orders.contains_key(id) == model.orders.contains_key(id)
            &&& overdue && model.orders.contains_key(id) ==> after.orders[id].state
                == OrderState::Uncertain && after.orders[id].remaining_quantity
                == model.orders[id].remaining_quantity
            &&& !overdue && model.orders.contains_key(id) ==> after.orders[id] == model.orders[id]
            &&& model.paused ==> after.paused
            &&& after.brackets == model.brackets
        }),
{
    assert(after.machines.dom().contains(id) == model.machines.dom().contains(id));
    assert(after.orders.dom().contains(id) == model.orders.dom().contains(id));
}

/// A stop-loss is due on the first fill of an entry that is no rejection, and a
/// take-profit once the stop-loss of a bracket that holds its entry is confirmed; at
/// no other time is either.
pub proof fn exits_are_due_once(model: BracketModel, fill: FillEvent, bracket_id: u64)
    ensures
        model.stop_is_due(fill) <==> model.legs.contains_key(fill.order_id)
            && model.brackets.contains_key(model.legs[fill.order_id])
            && model.brackets[model.legs[fill.order_id]].entry_order_id == fill.order_id
            && model.brackets[model.legs[fill.order_id]].bracket.state == BracketState::NoBracket
            && !(fill.fill_type is Rejected),
        model.profit_is_due(bracket_id) <==> model.brackets.contains_key(bracket_id)
            && model.brackets[bracket_id].bracket.state == BracketState::EntryOnly,
{
}

/// In a manager that is in order every leg of a bracket leads back to it, the three
/// legs have numbers of their own, and no number yet to be given out is taken.
pub proof fn legs_lead_back_to_their_bracket(model: BracketModel, bracket_id: u64, order_id: u64)
    requires
        model.consistent(),
    ensures
        model.brackets.contains_key(bracket_id) ==> {
            let e = model.brackets[bracket_id];
            &&& e.bracket.bracket_id == bracket_id
            &&& model.legs.contains_key(e.entry_order_id) && model.legs[e.entry_order_id]
                == bracket_id
            &&& e.stop_loss_order_id matches Some(id) ==> model.legs.contains_key(id)
                && model.legs[id] == bracket_id && id != e.entry_order_id
            &&& e.take_profit_order_id matches Some(id) ==> model.legs.contains_key(id)
                && model.legs[id] == bracket_id && id != e.entry_order_id
            &&& e.stop_loss_order_id is Some ==> e.stop_loss_order_id != e.take_profit_order_id
                && e.entry_fill_price is Some
        },
        model.legs.contains_key(order_id) ==> order_id < model.next_order_id,
{
}

/// A manager that is in order keeps every order under its own number, follows only
/// orders that are out and not at rest, asks only about orders that it follows, and
/// takes no new ones exactly while the fate of one is unknown.
pub proof fn managers_are_kept_in_order(model: ManagerModel, id: u64)
    requires
        model.consistent(),
    ensures
        model.orders.contains_key(id) ==> model.orders[id].order_id == id,
        model.machines.contains_key(id) ==> model.machines[id].order_id == id
            && model.machines[id].submitted_at is Some && model.machines[id].state
            != OrderState::Idle && model.machines[id].state != OrderState::Filled
            && model.machines[id].state != OrderState::Rejected && model.machines[id].state
            != OrderState::Cancelled && model.machines[id].state != OrderState::Resolved,
        model.recon.contains_key(id) ==> model.machines.contains_key(id) && model.machines[id].state
            == OrderState::PendingRecon,
        model.brackets.contains_key(id) ==> model.machines.contains_key(id),
        model.paused <==> exists|other: u64| #[trigger]
            model.machines.contains_key(other) && (model.machines[other].state
                == OrderState::Uncertain || model.machines[other].state
                == OrderState::PendingRecon),
{
    if model.any_in_doubt() {
        let other = choose|other: u64| #[trigger]
            model.machines.contains_key(other) && in_doubt(model.machines[other].state);
        assert(model.machines.contains_key(other));
    }
}

/// An exit of a bracket whose entry price is not known is booked as if the entry had
/// cost nothing.
pub proof fn unknown_entries_count_as_free(e: BracketEntry, fill: FillEvent)
    requires
        e.entry_fill_price is None,
        -i64::MAX <= fill.fill_price.quarter_ticks * fill.fill_size <= i64::MAX,
    ensures
        e.bracket.entry.side == Side::Buy ==> e.exit_pnl(fill) == fill.fill_price.quarter_ticks
            * fill.fill_size,
        e.bracket.entry.side == Side::Sell ==> e.exit_pnl(fill) == -(fill.fill_price.quarter_ticks
            * fill.fill_size),
{
    crate::types::profit_follows_the_price(
        e.bracket.entry.side,
        0,
        fill.fill_price.quarter_ticks,
        fill.fill_size,
    );
}

} // verus!
