//! Bracket orders: an entry, a stop-loss and a take-profit that belong together.
//!
//! ```text
//!   entry fills            -> EntryOnly,    the stop-loss goes out
//!   stop-loss confirmed    -> EntryAndStop, the take-profit goes out
//!   take-profit confirmed  -> Full
//!   stop or profit fills   -> the bracket is closed and its result journaled
//! ```
//!
//! Where the stop-loss cannot go out, the position is unprotected: the bracket
//! becomes `Flattening` and the caller is told what to flatten. A rejected entry
//! built no position, so no stop-loss ever goes out for it.
use std::collections::HashMap;
use vstd::prelude::*;
use vstd::string::StringExecFns;

use crate::persistence::journal::{
    EngineEvent, EventModel, JournalLog, JournalSender, SystemEventRecord, TradeEventRecord,
};
use crate::queue::OrderQueue;
use crate::text::{dec_int, dec_nat, push_i64, push_u64};
use crate::types::{
    compute_side_pnl, side_pnl, BracketOrder, BracketState, BracketStateError, FillEvent, FillType,
    FixedPrice, OrderEvent, OrderKind, OrderParams, OrderType, RejectReason, Side, TradeSource,
    UnixNanos,
};

verus! {

/// Why a bracket leg did not go out.
#[derive(Debug, Clone, Copy, PartialEq, Eq, Structural)]
pub enum BracketSubmissionError {
    /// A limit or stop leg has no price.
    MissingPrice,
    /// The broker queue is full.
    QueueFull,
    /// The bracket's state does not allow the leg.
    InvalidTransition(BracketStateError),
}

/// What the caller has to know after an entry fill or a confirmation.
#[derive(Debug, Clone, Copy, PartialEq, Eq, Structural)]
pub enum FlattenContext {
    /// The entry filled and the stop-loss went out.
    EntrySubmittedStop,
    /// The entry was rejected: no position, nothing to flatten.
    EntryRejected { bracket_id: u64, decision_id: u64, reason: RejectReason },
    /// The entry filled but the stop-loss could not go out: flatten.
    EntryFlatten { flatten_side: Side, symbol_id: u32, quantity: u32 },
    /// The bracket is being flattened already: do not flatten again.
    AlreadyFlattening { bracket_id: u64 },
    /// The stop-loss is confirmed and the take-profit went out.
    StopConfirmedTpSubmitted,
    /// The stop-loss is confirmed but the take-profit could not go out.
    StopConfirmedTpFailed,
    /// The take-profit is confirmed.
    Full,
}

/// How a bracket was closed.
#[derive(Debug, Clone, Copy, PartialEq, Eq, Structural)]
pub enum FlattenOutcome {
    TakeProfit { bracket_id: u64, decision_id: u64, realized_pnl_quarter_ticks: i64 },
    StopLoss { bracket_id: u64, decision_id: u64, realized_pnl_quarter_ticks: i64 },
    /// The fill belongs to no exit leg.
    Orphan { order_id: u64 },
}

/// A bracket with the order numbers of its legs.
#[derive(Debug, Clone, Copy, PartialEq, Eq, Structural)]
pub struct BracketEntry {
    pub bracket: BracketOrder,
    pub entry_order_id: u64,
    pub stop_loss_order_id: Option<u64>,
    pub take_profit_order_id: Option<u64>,
    pub entry_fill_price: Option<FixedPrice>,
}

// ---------------------------------------------------------------------------
// Model
// ---------------------------------------------------------------------------

/// The manager as a mathematical value.
#[verifier::ext_equal]
pub struct BracketModel {
    pub brackets: Map<u64, BracketEntry>,
    /// The bracket that each leg's order number belongs to.
    pub legs: Map<u64, u64>,
    pub log: JournalLog,
    pub next_order_id: u64,
}

/// The routed order of a leg, unless its price is missing.
pub open spec fn leg_order(
    order_id: u64,
    decision_id: u64,
    params: OrderParams,
    now: UnixNanos,
) -> Option<OrderEvent> {
    if !(params.order_type is Market) && params.price is None {
        None
    } else {
        Some(
            OrderEvent {
                order_id,
                symbol_id: params.symbol_id,
                side: params.side,
                quantity: params.quantity,
                order_type: match params.order_type {
                    OrderKind::Market => OrderType::Market,
                    OrderKind::Limit => OrderType::Limit { price: params.price->Some_0 },
                    OrderKind::Stop => OrderType::Stop { trigger: params.price->Some_0 },
                },
                decision_id,
                timestamp: now,
            },
        )
    }
}

/// `bracket <id> (decision <id>)`
pub open spec fn bracket_text(bracket_id: u64, decision_id: u64) -> Seq<char> {
    "bracket "@ + dec_nat(bracket_id as nat) + " (decision "@ + dec_nat(decision_id as nat) + ")"@
}

/// The journal entry of a bracket's new state.
pub open spec fn bracket_note(
    now: UnixNanos,
    bracket_id: u64,
    decision_id: u64,
    tail: Seq<char>,
) -> EventModel {
    EventModel::System {
        timestamp: now,
        category: "bracket"@,
        message: bracket_text(bracket_id, decision_id) + tail,
    }
}

impl BracketEntry {
    /// Whether the order number is that of an exit leg.
    pub open spec fn is_exit(self, order_id: u64) -> bool {
        self.take_profit_order_id == Some(order_id) || self.stop_loss_order_id == Some(order_id)
    }

    /// The name under which an exit is journaled.
    pub open spec fn exit_kind(self, order_id: u64) -> Seq<char> {
        if self.take_profit_order_id == Some(order_id) {
            "tp_fill"@
        } else {
            "sl_fill"@
        }
    }

    /// What the exit brought, in quarter-ticks.
    pub open spec fn exit_pnl(self, fill: FillEvent) -> int {
        side_pnl(
            self.bracket.entry.side,
            match self.entry_fill_price {
                Some(price) => price.quarter_ticks as int,
                None => 0,
            },
            fill.fill_price.quarter_ticks as int,
            fill.fill_size as int,
        )
    }
}

impl BracketModel {
    /// The brackets can be counted and are filed under their own numbers, each leg
    /// leads back to its bracket, and order numbers yet to be given out belong to
    /// no leg.
    pub open spec fn consistent(self) -> bool {
        &&& self.brackets.dom().finite()
        &&& forall|b: u64| #[trigger]
            self.brackets.contains_key(b) ==> {
                let e = self.brackets[b];
                &&& e.bracket.bracket_id == b
                &&& self.leg_of(e.entry_order_id, b)
                &&& e.stop_loss_order_id is Some ==> self.leg_of(e.stop_loss_order_id->Some_0, b)
                    && e.stop_loss_order_id->Some_0 != e.entry_order_id
                &&& e.take_profit_order_id is Some ==> self.leg_of(
                    e.take_profit_order_id->Some_0,
                    b,
                ) && e.take_profit_order_id->Some_0 != e.entry_order_id
                &&& e.take_profit_order_id is Some && e.stop_loss_order_id is Some
                    ==> e.take_profit_order_id != e.stop_loss_order_id
                &&& e.stop_loss_order_id is Some ==> e.entry_fill_price is Some
            }
        &&& forall|id: u64| #[trigger] self.legs.contains_key(id) ==> id < self.next_order_id
    }

    pub open spec fn leg_of(self, order_id: u64, bracket_id: u64) -> bool {
        self.legs.contains_key(order_id) && self.legs[order_id] == bracket_id
    }

    /// The legs without those of one bracket.
    pub open spec fn legs_without(self, e: BracketEntry) -> Map<u64, u64> {
        let step1 = self.legs.remove(e.entry_order_id);
        let step2 = match e.stop_loss_order_id {
            Some(id) => step1.remove(id),
            None => step1,
        };
        match e.take_profit_order_id {
            Some(id) => step2.remove(id),
            None => step2,
        }
    }

    /// The entry leg's bracket, where the fill is one of an entry leg.
    pub open spec fn entry_bracket(self, fill: FillEvent) -> Option<u64> {
        if self.legs.contains_key(fill.order_id) && self.brackets.contains_key(
            self.legs[fill.order_id],
        ) && self.brackets[self.legs[fill.order_id]].entry_order_id == fill.order_id {
            Some(self.legs[fill.order_id])
        } else {
            None
        }
    }

    /// Whether the fill is the first one of an entry leg, so that its stop-loss
    /// is due.
    pub open spec fn stop_is_due(self, fill: FillEvent) -> bool {
        self.entry_bracket(fill) matches Some(b) && !(fill.fill_type is Rejected)
            && self.brackets[b].bracket.state is NoBracket
    }

    /// The stop-loss order that an entry fill calls for.
    pub open spec fn stop_order(self, fill: FillEvent) -> Option<OrderEvent> {
        let bracket = self.brackets[self.legs[fill.order_id]].bracket;
        leg_order(self.next_order_id, bracket.decision_id, bracket.stop_loss, fill.timestamp)
    }

    /// What is reported of an entry fill; `room` tells whether the broker queue
    /// takes another order.
    pub open spec fn entry_fill_outcome(self, fill: FillEvent, room: bool) -> Option<
        FlattenContext,
    > {
        match self.entry_bracket(fill) {
            None => None,
            Some(b) => {
                let bracket = self.brackets[b].bracket;
                match fill.fill_type {
                    FillType::Rejected { reason } => Some(
                        FlattenContext::EntryRejected {
                            bracket_id: b,
                            decision_id: bracket.decision_id,
                            reason,
                        },
                    ),
                    _ => if !(bracket.state is NoBracket) {
                        None
                    } else if self.stop_order(fill) is Some && room {
                        Some(FlattenContext::EntrySubmittedStop)
                    } else {
                        Some(
                            FlattenContext::EntryFlatten {
                                flatten_side: bracket.entry.side.flipped(),
                                symbol_id: bracket.entry.symbol_id,
                                quantity: bracket.entry.quantity,
                            },
                        )
                    },
                }
            },
        }
    }

    /// The manager after an entry fill.
    pub open spec fn after_entry_fill(self, fill: FillEvent, room: bool) -> BracketModel {
        match self.entry_bracket(fill) {
            None => self,
            Some(b) => {
                let e = self.brackets[b];
                let priced = BracketEntry { entry_fill_price: Some(fill.fill_price), ..e };
                match fill.fill_type {
                    FillType::Rejected { reason } => BracketModel {
                        brackets: self.brackets.remove(b),
                        legs: self.legs.remove(e.entry_order_id),
                        log: self.log.record(
                            bracket_note(
                                fill.timestamp,
                                b,
                                e.bracket.decision_id,
                                " entry rejected: "@ + reason.name(),
                            ),
                        ),
                        ..self
                    },
                    _ => if !(e.bracket.state is NoBracket) {
                        BracketModel { brackets: self.brackets.insert(b, priced), ..self }
                    } else {
                        let entered = self.log.record(
                            bracket_note(
                                fill.timestamp,
                                b,
                                e.bracket.decision_id,
                                " -> "@ + "EntryOnly"@,
                            ),
                        );
                        if self.stop_order(fill) is Some && room {
                            BracketModel {
                                brackets: self.brackets.insert(
                                    b,
                                    BracketEntry {
                                        bracket: BracketOrder {
                                            state: BracketState::EntryOnly,
                                            ..e.bracket
                                        },
                                        stop_loss_order_id: Some(self.next_order_id),
                                        ..priced
                                    },
                                ),
                                legs: self.legs.insert(self.next_order_id, b),
                                log: entered,
                                next_order_id: (self.next_order_id + 1) as u64,
                            }
                        } else {
                            BracketModel {
                                brackets: self.brackets.insert(
                                    b,
                                    BracketEntry {
                                        bracket: BracketOrder {
                                            state: BracketState::Flattening,
                                            ..e.bracket
                                        },
                                        ..priced
                                    },
                                ),
                                log: entered.record(
                                    bracket_note(
                                        fill.timestamp,
                                        b,
                                        e.bracket.decision_id,
                                        " -> Flattening"@,
                                    ),
                                ),
                                next_order_id: (self.next_order_id + 1) as u64,
                                ..self
                            }
                        }
                    },
                }
            },
        }
    }

    /// Whether a stop confirmation moves the bracket on, so that its take-profit
    /// is due.
    pub open spec fn profit_is_due(self, bracket_id: u64) -> bool {
        self.brackets.contains_key(bracket_id)
            && self.brackets[bracket_id].bracket.state is EntryOnly
    }

    /// The take-profit order that a stop confirmation calls for.
    pub open spec fn profit_order(self, bracket_id: u64, now: UnixNanos) -> Option<OrderEvent> {
        let bracket = self.brackets[bracket_id].bracket;
        leg_order(self.next_order_id, bracket.decision_id, bracket.take_profit, now)
    }

    /// The manager after a stop confirmation that moves the bracket on.
    pub open spec fn after_stop_confirmed(
        self,
        bracket_id: u64,
        now: UnixNanos,
        room: bool,
    ) -> BracketModel {
        let e = self.brackets[bracket_id];
        let moved = BracketOrder { state: BracketState::EntryAndStop, ..e.bracket };
        let sent = self.profit_order(bracket_id, now) is Some && room;
        BracketModel {
            brackets: self.brackets.insert(
                bracket_id,
                BracketEntry {
                    bracket: moved,
                    take_profit_order_id: if sent {
                        Some(self.next_order_id)
                    } else {
                        e.take_profit_order_id
                    },
                    ..e
                },
            ),
            legs: if sent {
                self.legs.insert(self.next_order_id, bracket_id)
            } else {
                self.legs
            },
            log: self.log.record(
                bracket_note(now, bracket_id, e.bracket.decision_id, " -> "@ + "EntryAndStop"@),
            ),
            next_order_id: (self.next_order_id + 1) as u64,
        }
    }

    /// The bracket that an exit fill closes.
    pub open spec fn exit_bracket(self, fill: FillEvent) -> Option<u64> {
        if self.legs.contains_key(fill.order_id) && self.brackets.contains_key(
            self.legs[fill.order_id],
        ) && self.brackets[self.legs[fill.order_id]].is_exit(fill.order_id) {
            Some(self.legs[fill.order_id])
        } else {
            None
        }
    }

    /// What is reported of an exit fill.
    pub open spec fn exit_outcome(self, fill: FillEvent) -> FlattenOutcome {
        match self.exit_bracket(fill) {
            None => FlattenOutcome::Orphan { order_id: fill.order_id },
            Some(b) => {
                let e = self.brackets[b];
                if e.take_profit_order_id == Some(fill.order_id) {
                    FlattenOutcome::TakeProfit {
                        bracket_id: b,
                        decision_id: e.bracket.decision_id,
                        realized_pnl_quarter_ticks: e.exit_pnl(fill) as i64,
                    }
                } else {
                    FlattenOutcome::StopLoss {
                        bracket_id: b,
                        decision_id: e.bracket.decision_id,
                        realized_pnl_quarter_ticks: e.exit_pnl(fill) as i64,
                    }
                }
            },
        }
    }

    /// The manager after an exit fill: the bracket is gone, the trade and its
    /// result are journaled.
    pub open spec fn after_exit(self, fill: FillEvent) -> BracketModel {
        match self.exit_bracket(fill) {
            None => self,
            Some(b) => {
                let e = self.brackets[b];
                let kind = e.exit_kind(fill.order_id);
                BracketModel {
                    brackets: self.brackets.remove(b),
                    legs: self.legs_without(e),
                    log: self.log.record(
                        EventModel::Trade {
                            timestamp: fill.timestamp,
                            decision_id: Some(e.bracket.decision_id),
                            order: Some(fill.order_id),
                            symbol_id: e.bracket.entry.symbol_id,
                            side: fill.side,
                            price: fill.fill_price,
                            size: fill.fill_size,
                            kind,
                            source: TradeSource::Live,
                        },
                    ).record(
                        bracket_note(
                            fill.timestamp,
                            b,
                            e.bracket.decision_id,
                            " closed via "@ + kind + ", pnl_qt="@ + dec_int(e.exit_pnl(fill)),
                        ),
                    ),
                    ..self
                }
            },
        }
    }
}

// ---------------------------------------------------------------------------
// Manager
// ---------------------------------------------------------------------------

/// Drives brackets from entry to exit.
pub struct BracketManager {
    brackets: HashMap<u64, BracketEntry>,
    leg_to_bracket: HashMap<u64, u64>,
    journal: JournalSender,
    next_order_id: u64,
}

impl View for BracketManager {
    type V = BracketModel;

    closed spec fn view(&self) -> BracketModel {
        BracketModel {
            brackets: self.brackets@,
            legs: self.leg_to_bracket@,
            log: self.journal@,
            next_order_id: self.next_order_id,
        }
    }
}

/// Appends `bracket <id> (decision <id>)`.
fn push_bracket_text(out: &mut String, bracket_id: u64, decision_id: u64)
    ensures
        final(out)@ == old(out)@ + bracket_text(bracket_id, decision_id),
{
    out.append("bracket ");
    push_u64(out, bracket_id);
    out.append(" (decision ");
    push_u64(out, decision_id);
    out.append(")");
    assert(out@ =~= old(out)@ + bracket_text(bracket_id, decision_id));
}

impl BracketManager {
    pub fn new(journal: JournalSender) -> (r: Self)
        ensures
            r@ == (BracketModel {
                brackets: Map::empty(),
                legs: Map::empty(),
                log: journal@,
                next_order_id: 1,
            }),
            r@.consistent(),
    {
        broadcast use vstd::std_specs::hash::group_hash_axioms;

        BracketManager {
            brackets: HashMap::new(),
            leg_to_bracket: HashMap::new(),
            journal,
            next_order_id: 1,
        }
    }

    /// Sets the first order number to give out; at least one.
    pub fn with_starting_order_id(self, start: u64) -> (r: Self)
        ensures
            r@ == (BracketModel {
                next_order_id: if start == 0 {
                    1
                } else {
                    start
                },
                ..self@
            }),
            self@.legs.dom() == Set::<u64>::empty() && self@.consistent() ==> r@.consistent(),
    {
        let mut manager = self;
        manager.next_order_id = if start == 0 {
            1
        } else {
            start
        };
        proof {
            if self@.legs.dom() == Set::<u64>::empty() && self@.consistent() {
                assert(forall|id: u64| #[trigger] self@.legs.contains_key(id) ==> self@.legs.dom().contains(id));
            }
        }
        manager
    }

    /// How many brackets are open.
    pub fn active_count(&self) -> (r: usize)
        ensures
            r == self@.brackets.dom().len(),
    {
        broadcast use vstd::std_specs::hash::group_hash_axioms;

        self.brackets.len()
    }

    pub fn get(&self, bracket_id: u64) -> (r: Option<&BracketOrder>)
        ensures
            r is Some <==> self@.brackets.contains_key(bracket_id),
            r matches Some(bracket) ==> *bracket == self@.brackets[bracket_id].bracket,
    {
        broadcast use vstd::std_specs::hash::group_hash_axioms;

        match self.brackets.get(&bracket_id) {
            Some(e) => Some(&e.bracket),
            None => None,
        }
    }

    /// The bracket with the order numbers of its legs.
    pub fn entry(&self, bracket_id: u64) -> (r: Option<&BracketEntry>)
        ensures
            r is Some <==> self@.brackets.contains_key(bracket_id),
            r matches Some(e) ==> *e == self@.brackets[bracket_id],
    {
        broadcast use vstd::std_specs::hash::group_hash_axioms;

        self.brackets.get(&bracket_id)
    }

    /// Gives out the next order number.
    fn alloc_order_id(&mut self) -> (r: u64)
        requires
            old(self)@.next_order_id < u64::MAX,
        ensures
            r == old(self)@.next_order_id,
            final(self)@ == (BracketModel { next_order_id: (r + 1) as u64, ..old(self)@ }),
    {
        let id: u64 = self.next_order_id;
        self.next_order_id = id + 1;
        id
    }

    /// The routed order of a leg.
    pub fn build_order_event(
        order_id: u64,
        decision_id: u64,
        params: &OrderParams,
        now: UnixNanos,
    ) -> (r: Result<OrderEvent, BracketSubmissionError>)
        ensures
            r == (match leg_order(order_id, decision_id, *params, now) {
                Some(event) => Ok::<OrderEvent, BracketSubmissionError>(event),
                None => Err(BracketSubmissionError::MissingPrice),
            }),
            r is Err <==> !(params.order_type is Market) && params.price is None,
            r matches Ok(order) ==> {
                &&& order.order_id == order_id
                &&& order.decision_id == decision_id
                &&& order.timestamp == now
                &&& order.symbol_id == params.symbol_id
                &&& order.side == params.side
                &&& order.quantity == params.quantity
                &&& match order.order_type {
                    OrderType::Market => params.order_type is Market,
                    OrderType::Limit { price } => params.order_type is Limit && params.price
                        == Some(price),
                    OrderType::Stop { trigger } => params.order_type is Stop && params.price
                        == Some(trigger),
                }
            },
    {
        let order_type = match params.order_type {
            OrderKind::Market => OrderType::Market,
            OrderKind::Limit => match params.price {
                Some(price) => OrderType::Limit { price },
                None => {
                    return Err(BracketSubmissionError::MissingPrice);
                },
            },
            OrderKind::Stop => match params.price {
                Some(trigger) => OrderType::Stop { trigger },
                None => {
                    return Err(BracketSubmissionError::MissingPrice);
                },
            },
        };
        Ok(
            OrderEvent {
                order_id,
                symbol_id: params.symbol_id,
                side: params.side,
                quantity: params.quantity,
                order_type,
                decision_id,
                timestamp: now,
            },
        )
    }

    /// Registers a bracket and sends its entry leg out. The entry's order number
    /// is used up even where the leg does not go out.
    pub fn submit_entry(
        &mut self,
        bracket: BracketOrder,
        queue: &mut OrderQueue,
        now: UnixNanos,
    ) -> (r: Result<u64, BracketSubmissionError>)
        requires
            old(self)@.consistent(),
            old(self)@.next_order_id < u64::MAX,
        ensures
            final(self)@.consistent(),
            final(queue).limit() == old(queue).limit(),
            ({
                let id = old(self)@.next_order_id;
                let event = leg_order(id, bracket.decision_id, bracket.entry, now);
                let room = old(queue)@.len() < old(queue).limit();
                &&& r == (if event is None {
                    Err(BracketSubmissionError::MissingPrice)
                } else if !room {
                    Err(BracketSubmissionError::QueueFull)
                } else {
                    Ok::<u64, BracketSubmissionError>(id)
                })
                &&& r is Ok ==> final(queue)@ == old(queue)@.push(event->Some_0) && final(self)@
                    == (BracketModel {
                    brackets: old(self)@.brackets.insert(
                        bracket.bracket_id,
                        BracketEntry {
                            bracket,
                            entry_order_id: id,
                            stop_loss_order_id: None,
                            take_profit_order_id: None,
                            entry_fill_price: None,
                        },
                    ),
                    legs: old(self)@.legs.insert(id, bracket.bracket_id),
                    next_order_id: (id + 1) as u64,
                    ..old(self)@
                })
                &&& r is Err ==> final(queue)@ == old(queue)@ && final(self)@ == (BracketModel {
                    next_order_id: (id + 1) as u64,
                    ..old(self)@
                })
            }),
            r matches Ok(id) ==> {
                let sent = final(queue)@.last();
                &&& final(queue)@.len() == old(queue)@.len() + 1
                &&& sent.order_id == id
                &&& sent.decision_id == bracket.decision_id
                &&& sent.timestamp == now
                &&& sent.symbol_id == bracket.entry.symbol_id
                &&& sent.side == bracket.entry.side
                &&& sent.quantity == bracket.entry.quantity
                &&& match sent.order_type {
                    OrderType::Market => bracket.entry.order_type is Market,
                    OrderType::Limit { price } => bracket.entry.order_type is Limit
                        && bracket.entry.price == Some(price),
                    OrderType::Stop { trigger } => bracket.entry.order_type is Stop
                        && bracket.entry.price == Some(trigger),
                }
            },
    {
        broadcast use vstd::std_specs::hash::group_hash_axioms;

        let entry_order_id: u64 = self.alloc_order_id();
        let event = match BracketManager::build_order_event(
            entry_order_id,
            bracket.decision_id,
            &bracket.entry,
            now,
        ) {
            Ok(event) => event,
            Err(refused) => {
                return Err(refused);
            },
        };
        if !queue.try_push(event) {
            return Err(BracketSubmissionError::QueueFull);
        }
        let e = BracketEntry {
            bracket,
            entry_order_id,
            stop_loss_order_id: None,
            take_profit_order_id: None,
            entry_fill_price: None,
        };
        self.brackets.insert(bracket.bracket_id, e);
        self.leg_to_bracket.insert(entry_order_id, bracket.bracket_id);
        Ok(entry_order_id)
    }

    /// Journals a note on a bracket.
    fn note(&mut self, now: UnixNanos, bracket_id: u64, decision_id: u64, tail: &str)
        ensures
            final(self)@ == (BracketModel {
                log: old(self)@.log.record(bracket_note(now, bracket_id, decision_id, tail@)),
                ..old(self)@
            }),
    {
        let mut message = String::new();
        push_bracket_text(&mut message, bracket_id, decision_id);
        message.append(tail);
        assert(message@ =~= bracket_text(bracket_id, decision_id) + tail@);
        let _ = self.journal.send(
            EngineEvent::SystemEvent(
                SystemEventRecord { timestamp: now, category: "bracket".to_owned(), message },
            ),
        );
    }

    /// Journals a bracket's new state.
    fn log_state_transition(&mut self, e: &BracketEntry, new_state: &str, now: UnixNanos)
        ensures
            final(self)@ == (BracketModel {
                log: old(self)@.log.record(
                    bracket_note(
                        now,
                        e.bracket.bracket_id,
                        e.bracket.decision_id,
                        " -> "@ + new_state@,
                    ),
                ),
                ..old(self)@
            }),
    {
        let mut tail = " -> ".to_owned();
        tail.append(new_state);
        self.note(now, e.bracket.bracket_id, e.bracket.decision_id, tail.as_str());
    }

    /// Moves a bracket on after a fill of its entry leg and sends its stop-loss
    /// out.
    ///
    /// The stop-loss is sized as the bracket says, also where only a part of the
    /// entry was filled. Fills of other legs, and repeated fills, move nothing.
    pub fn on_entry_fill(&mut self, fill: &FillEvent, queue: &mut OrderQueue) -> (r: Option<
        FlattenContext,
    >)
        requires
            old(self)@.consistent(),
            old(self)@.stop_is_due(*fill) ==> old(self)@.next_order_id < u64::MAX,
        ensures
            final(self)@.consistent(),
            final(queue).limit() == old(queue).limit(),
            r == old(self)@.entry_fill_outcome(*fill, old(queue)@.len() < old(queue).limit()),
            final(self)@ == old(self)@.after_entry_fill(
                *fill,
                old(queue)@.len() < old(queue).limit(),
            ),
            final(queue)@ == (if r == Some(FlattenContext::EntrySubmittedStop) {
                old(queue)@.push(old(self)@.stop_order(*fill)->Some_0)
            } else {
                old(queue)@
            }),
            r == Some(FlattenContext::EntrySubmittedStop) ==> {
                let bracket = old(self)@.brackets[old(self)@.legs[fill.order_id]].bracket;
                let sent = final(queue)@.last();
                &&& final(queue)@.len() == old(queue)@.len() + 1
                &&& sent.order_id == old(self)@.next_order_id
                &&& sent.decision_id == bracket.decision_id
                &&& sent.timestamp == fill.timestamp
                &&& sent.symbol_id == bracket.stop_loss.symbol_id
                &&& sent.side == bracket.stop_loss.side
                &&& sent.quantity == bracket.stop_loss.quantity
                &&& match sent.order_type {
                    OrderType::Market => bracket.stop_loss.order_type is Market,
                    OrderType::Limit { price } => bracket.stop_loss.order_type is Limit
                        && bracket.stop_loss.price == Some(price),
                    OrderType::Stop { trigger } => bracket.stop_loss.order_type is Stop
                        && bracket.stop_loss.price == Some(trigger),
                }
            },
    {
        broadcast use vstd::std_specs::hash::group_hash_axioms;

        let ghost start = self@;
        let bracket_id: u64 = match self.leg_to_bracket.get(&fill.order_id) {
            Some(id) => *id,
            None => {
                return None;
            },
        };
        let mut e = match self.brackets.get(&bracket_id) {
            Some(e) => *e,
            None => {
                return None;
            },
        };
        if fill.order_id != e.entry_order_id {
            return None;
        }
        if let FillType::Rejected { reason } = fill.fill_type {
            self.brackets.remove(&bracket_id);
            let mut tail = " entry rejected: ".to_owned();
            tail.append(reason.as_str());
            self.note(fill.timestamp, bracket_id, e.bracket.decision_id, tail.as_str());
            self.leg_to_bracket.remove(&e.entry_order_id);
            assert forall|b: u64| #[trigger] self@.brackets.contains_key(b) implies self@.leg_of(
                self@.brackets[b].entry_order_id,
                b,
            ) by {
                assert(start.brackets.contains_key(b));
            }
            return Some(
                FlattenContext::EntryRejected {
                    bracket_id,
                    decision_id: e.bracket.decision_id,
                    reason,
                },
            );
        }
        e.entry_fill_price = Some(fill.fill_price);
        if e.bracket.transition(BracketState::EntryOnly).is_err() {
            self.brackets.insert(bracket_id, e);
            return None;
        }
        self.log_state_transition(&e, "EntryOnly", fill.timestamp);

        let sl_order_id: u64 = self.alloc_order_id();
        let event = match BracketManager::build_order_event(
            sl_order_id,
            e.bracket.decision_id,
            &e.bracket.stop_loss,
            fill.timestamp,
        ) {
            Ok(event) => event,
            Err(_) => {
                return self.engage_flatten(bracket_id, e, fill.timestamp);
            },
        };
        if !queue.try_push(event) {
            return self.engage_flatten(bracket_id, e, fill.timestamp);
        }
        e.stop_loss_order_id = Some(sl_order_id);
        self.leg_to_bracket.insert(sl_order_id, bracket_id);
        self.brackets.insert(bracket_id, e);
        Some(FlattenContext::EntrySubmittedStop)
    }

    /// Moves a bracket on after the broker confirmed its stop-loss, and sends its
    /// take-profit out. Where that fails, the resting stop-loss still protects the
    /// position.
    pub fn on_stop_confirmed(
        &mut self,
        bracket_id: u64,
        queue: &mut OrderQueue,
        now: UnixNanos,
    ) -> (r: Option<FlattenContext>)
        requires
            old(self)@.consistent(),
            old(self)@.profit_is_due(bracket_id) ==> old(self)@.next_order_id < u64::MAX,
        ensures
            final(self)@.consistent(),
            final(queue).limit() == old(queue).limit(),
            ({
                let room = old(queue)@.len() < old(queue).limit();
                let event = old(self)@.profit_order(bracket_id, now);
                &&& r == (if !old(self)@.profit_is_due(bracket_id) {
                    None
                } else if event is Some && room {
                    Some(FlattenContext::StopConfirmedTpSubmitted)
                } else {
                    Some(FlattenContext::StopConfirmedTpFailed)
                })
                &&& final(self)@ == (if old(self)@.profit_is_due(bracket_id) {
                    old(self)@.after_stop_confirmed(bracket_id, now, room)
                } else {
                    old(self)@
                })
                &&& final(queue)@ == (if old(self)@.profit_is_due(bracket_id) && event is Some
                    && room {
                    old(queue)@.push(event->Some_0)
                } else {
                    old(queue)@
                })
            }),
            r == Some(FlattenContext::StopConfirmedTpSubmitted) ==> {
                let bracket = old(self)@.brackets[bracket_id].bracket;
                let sent = final(queue)@.last();
                &&& final(queue)@.len() == old(queue)@.len() + 1
                &&& sent.order_id == old(self)@.next_order_id
                &&& sent.decision_id == bracket.decision_id
                &&& sent.timestamp == now
                &&& sent.symbol_id == bracket.take_profit.symbol_id
                &&& sent.side == bracket.take_profit.side
                &&& sent.quantity == bracket.take_profit.quantity
                &&& match sent.order_type {
                    OrderType::Market => bracket.take_profit.order_type is Market,
                    OrderType::Limit { price } => bracket.take_profit.order_type is Limit
                        && bracket.take_profit.price == Some(price),
                    OrderType::Stop { trigger } => bracket.take_profit.order_type is Stop
                        && bracket.take_profit.price == Some(trigger),
                }
            },
    {
        broadcast use vstd::std_specs::hash::group_hash_axioms;

        let mut e = match self.brackets.get(&bracket_id) {
            Some(e) => *e,
            None => {
                return None;
            },
        };
        if e.bracket.transition(BracketState::EntryAndStop).is_err() {
            return None;
        }
        self.log_state_transition(&e, "EntryAndStop", now);

        let tp_order_id: u64 = self.alloc_order_id();
        let event = match BracketManager::build_order_event(
            tp_order_id,
            e.bracket.decision_id,
            &e.bracket.take_profit,
            now,
        ) {
            Ok(event) => event,
            Err(_) => {
                self.brackets.insert(bracket_id, e);
                return Some(FlattenContext::StopConfirmedTpFailed);
            },
        };
        if !queue.try_push(event) {
            self.brackets.insert(bracket_id, e);
            return Some(FlattenContext::StopConfirmedTpFailed);
        }
        e.take_profit_order_id = Some(tp_order_id);
        self.leg_to_bracket.insert(tp_order_id, bracket_id);
        self.brackets.insert(bracket_id, e);
        Some(FlattenContext::StopConfirmedTpSubmitted)
    }

    /// Notes that the broker confirmed the take-profit: the position is fully
    /// protected.
    pub fn on_take_profit_confirmed(&mut self, bracket_id: u64, now: UnixNanos) -> (r: Option<
        FlattenContext,
    >)
        requires
            old(self)@.consistent(),
        ensures
            final(self)@.consistent(),
            r == (if old(self)@.brackets.contains_key(bracket_id)
                && old(self)@.brackets[bracket_id].bracket.state is EntryAndStop {
                Some(FlattenContext::Full)
            } else {
                None
            }),
            r is None ==> final(self)@ == old(self)@,
            r is Some ==> final(self)@ == (BracketModel {
                brackets: old(self)@.brackets.insert(
                    bracket_id,
                    BracketEntry {
                        bracket: BracketOrder {
                            state: BracketState::Full,
                            ..old(self)@.brackets[bracket_id].bracket
                        },
                        ..old(self)@.brackets[bracket_id]
                    },
                ),
                log: old(self)@.log.record(
                    bracket_note(
                        now,
                        bracket_id,
                        old(self)@.brackets[bracket_id].bracket.decision_id,
                        " -> Full"@,
                    ),
                ),
                ..old(self)@
            }),
    {
        broadcast use vstd::std_specs::hash::group_hash_axioms;

        let mut e = match self.brackets.get(&bracket_id) {
            Some(e) => *e,
            None => {
                return None;
            },
        };
        if e.bracket.transition(BracketState::Full).is_err() {
            return None;
        }
        self.brackets.insert(bracket_id, e);
        self.note(now, bracket_id, e.bracket.decision_id, " -> Full");
        Some(FlattenContext::Full)
    }

    /// Closes a bracket whose stop-loss or take-profit was filled, and journals
    /// the trade and its result.
    pub fn on_bracket_fill(&mut self, fill: &FillEvent) -> (r: FlattenOutcome)
        requires
            old(self)@.consistent(),
        ensures
            final(self)@.consistent(),
            r == old(self)@.exit_outcome(*fill),
            final(self)@ == old(self)@.after_exit(*fill),
    {
        broadcast use vstd::std_specs::hash::group_hash_axioms;

        let ghost start = self@;
        let bracket_id: u64 = match self.leg_to_bracket.get(&fill.order_id) {
            Some(id) => *id,
            None => {
                return FlattenOutcome::Orphan { order_id: fill.order_id };
            },
        };
        let e = match self.brackets.get(&bracket_id) {
            Some(e) => *e,
            None => {
                return FlattenOutcome::Orphan { order_id: fill.order_id };
            },
        };
        let is_tp = match e.take_profit_order_id {
            Some(id) => id == fill.order_id,
            None => false,
        };
        let is_sl = match e.stop_loss_order_id {
            Some(id) => id == fill.order_id,
            None => false,
        };
        if !(is_tp || is_sl) {
            return FlattenOutcome::Orphan { order_id: fill.order_id };
        }
        let entry_price = match e.entry_fill_price {
            Some(price) => price,
            None => FixedPrice::new(0),
        };
        let pnl: i64 = compute_side_pnl(
            e.bracket.entry.side,
            entry_price,
            fill.fill_price,
            fill.fill_size,
        );
        let exit_kind = if is_tp {
            "tp_fill"
        } else {
            "sl_fill"
        };
        let _ = self.journal.send(
            EngineEvent::TradeEvent(
                TradeEventRecord {
                    timestamp: fill.timestamp,
                    decision_id: Some(e.bracket.decision_id),
                    order_id: Some(fill.order_id),
                    symbol_id: e.bracket.entry.symbol_id,
                    side: fill.side,
                    price: fill.fill_price,
                    size: fill.fill_size,
                    kind: exit_kind.to_owned(),
                    source: TradeSource::Live,
                },
            ),
        );
        let mut tail = " closed via ".to_owned();
        tail.append(exit_kind);
        tail.append(", pnl_qt=");
        push_i64(&mut tail, pnl);
        self.note(fill.timestamp, bracket_id, e.bracket.decision_id, tail.as_str());
        self.drop_bracket(bracket_id);
        if is_tp {
            FlattenOutcome::TakeProfit {
                bracket_id,
                decision_id: e.bracket.decision_id,
                realized_pnl_quarter_ticks: pnl,
            }
        } else {
            FlattenOutcome::StopLoss {
                bracket_id,
                decision_id: e.bracket.decision_id,
                realized_pnl_quarter_ticks: pnl,
            }
        }
    }

    /// Gives up on protecting a filled entry and tells the caller what to
    /// flatten, unless the bracket is being flattened already.
    fn engage_flatten(&mut self, bracket_id: u64, entry: BracketEntry, now: UnixNanos) -> (r: Option<
        FlattenContext,
    >)
        ensures
            entry.bracket.state is Flattening ==> r == Some(
                FlattenContext::AlreadyFlattening { bracket_id },
            ) && final(self)@ == (BracketModel {
                brackets: old(self)@.brackets.insert(bracket_id, entry),
                ..old(self)@
            }),
            !(entry.bracket.state is Flattening) ==> r == Some(
                FlattenContext::EntryFlatten {
                    flatten_side: entry.bracket.entry.side.flipped(),
                    symbol_id: entry.bracket.entry.symbol_id,
                    quantity: entry.bracket.entry.quantity,
                },
            ) && final(self)@ == (BracketModel {
                brackets: old(self)@.brackets.insert(
                    bracket_id,
                    BracketEntry {
                        bracket: BracketOrder { state: BracketState::Flattening, ..entry.bracket },
                        ..entry
                    },
                ),
                log: old(self)@.log.record(
                    bracket_note(now, bracket_id, entry.bracket.decision_id, " -> Flattening"@),
                ),
                ..old(self)@
            }),
    {
        broadcast use vstd::std_specs::hash::group_hash_axioms;

        let mut e = entry;
        if e.bracket.transition(BracketState::Flattening).is_err() {
            self.brackets.insert(bracket_id, e);
            return Some(FlattenContext::AlreadyFlattening { bracket_id });
        }
        self.note(now, bracket_id, e.bracket.decision_id, " -> Flattening");
        let context = FlattenContext::EntryFlatten {
            flatten_side: e.bracket.entry.side.opposite(),
            symbol_id: e.bracket.entry.symbol_id,
            quantity: e.bracket.entry.quantity,
        };
        self.brackets.insert(bracket_id, e);
        Some(context)
    }

    /// Forgets a bracket and its legs.
    pub fn drop_bracket(&mut self, bracket_id: u64)
        requires
            old(self)@.consistent(),
        ensures
            final(self)@.consistent(),
            final(self)@ == (if old(self)@.brackets.contains_key(bracket_id) {
                BracketModel {
                    brackets: old(self)@.brackets.remove(bracket_id),
                    legs: old(self)@.legs_without(old(self)@.brackets[bracket_id]),
                    ..old(self)@
                }
            } else {
                old(self)@
            }),
    {
        broadcast use vstd::std_specs::hash::group_hash_axioms;

        let ghost start = self@;
        let found = self.brackets.remove(&bracket_id);
        if let Some(e) = found {
            self.leg_to_bracket.remove(&e.entry_order_id);
            if let Some(id) = e.stop_loss_order_id {
                self.leg_to_bracket.remove(&id);
            }
            if let Some(id) = e.take_profit_order_id {
                self.leg_to_bracket.remove(&id);
            }
            assert forall|b: u64| #[trigger] self@.brackets.contains_key(b) implies {
                let other = self@.brackets[b];
                &&& self@.leg_of(other.entry_order_id, b)
                &&& other.stop_loss_order_id is Some ==> self@.leg_of(
                    other.stop_loss_order_id->Some_0,
                    b,
                )
                &&& other.take_profit_order_id is Some ==> self@.leg_of(
                    other.take_profit_order_id->Some_0,
                    b,
                )
            } by {
                assert(start.brackets.contains_key(b));
            }
        }
    }
}

} // verus!
