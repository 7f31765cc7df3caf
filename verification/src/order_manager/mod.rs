//! Order life cycle: submission, fills, timeouts and reconciliation.
//!
//! An order is submitted in a fixed sequence: its row is written to the
//! write-ahead log, its state machine leaves `Idle`, and it is pushed onto the
//! broker queue. Where the queue is full, the row is closed again as `Rejected`.
//!
//! An order that stays `Submitted` for too long becomes `Uncertain`. While any
//! order is uncertain, no new order is accepted; the broker is asked what became
//! of it, and its answer resolves the order.
//!
//! The manager itself touches no file and calls nobody: updates of the log wait in
//! [`OrderManager::take_wal_ops`] and signals to the circuit breaker in
//! [`OrderManager::take_trips`].
pub mod bracket;
pub mod laws;
pub mod state_machine;
pub mod tracker;
pub mod wal;

use std::collections::HashMap;
use vstd::prelude::*;
use vstd::string::StringExecFns;

use crate::keys::{keys_u64, lists_exactly};
use crate::persistence::journal::{
    EngineEvent, EventModel, JournalLog, JournalSender, OrderStateChangeRecord, SystemEventRecord,
};
use crate::queue::{FillQueue, OrderQueue};
use crate::text::{dec_nat, push_u64};
use crate::types::{
    FillEvent, FillType, OrderEvent, OrderState, RejectReason, Side, TradeSource, UnixNanos,
};
use state_machine::{
    can_transition_to, next_state, reaches, InvalidTransition, OrderStateMachine, OrderTransition,
};
use wal::{pending_row, write_before_submit, PendingOrder, WalOp};

verus! {

/// How long an order may stay `Submitted` unless told otherwise.
pub const DEFAULT_UNCERTAIN_TIMEOUT_NANOS: u64 = 5_000_000_000;

/// How long a reconciliation may stay open before the circuit breaker is told.
pub const PENDING_RECON_ESCALATION_NANOS: u64 = 30_000_000_000;

/// What the manager remembers of a submitted order besides its state machine.
#[derive(Debug, Clone, Copy, PartialEq, Eq, Structural)]
pub struct TrackedOrder {
    pub order_id: u64,
    pub decision_id: u64,
    pub symbol_id: u32,
    pub original_quantity: u32,
    pub remaining_quantity: u32,
    pub state: OrderState,
}

impl TrackedOrder {
    /// The record of an order that has just been routed.
    pub open spec fn submitted(event: OrderEvent) -> TrackedOrder {
        TrackedOrder {
            order_id: event.order_id,
            decision_id: event.decision_id,
            symbol_id: event.symbol_id,
            original_quantity: event.quantity,
            remaining_quantity: event.quantity,
            state: OrderState::Submitted,
        }
    }

    pub fn from_submission(event: &OrderEvent) -> (r: Self)
        ensures
            r == TrackedOrder::submitted(*event),
    {
        TrackedOrder {
            order_id: event.order_id,
            decision_id: event.decision_id,
            symbol_id: event.symbol_id,
            original_quantity: event.quantity,
            remaining_quantity: event.quantity,
            state: OrderState::Submitted,
        }
    }

    /// Notes the exchange's confirmation of a submitted order.
    pub fn mark_confirmed(&mut self) -> (r: bool)
        ensures
            r == (old(self).state is Submitted),
            *final(self) == (if r {
                TrackedOrder { state: OrderState::Confirmed, ..*old(self) }
            } else {
                *old(self)
            }),
    {
        if self.state == OrderState::Submitted {
            self.state = OrderState::Confirmed;
            true
        } else {
            false
        }
    }
}

/// What became of one fill.
#[derive(Debug, Clone, Copy, PartialEq, Eq, Structural)]
pub enum FillOutcome {
    /// The order is partly filled and still open.
    Partial { order_id: u64, decision_id: u64, remaining: u32 },
    /// The order is filled.
    Filled { order_id: u64, decision_id: u64 },
    /// The order was rejected.
    Rejected { order_id: u64, decision_id: u64, reason: RejectReason },
    /// No such order is tracked.
    Orphan { order_id: u64 },
    /// The order's state has no arc for the fill; the order stays as it was.
    InvalidTransition { order_id: u64, from: OrderState, to: OrderState },
    /// The fill's size contradicts what is left of the order.
    InvalidFillSize { order_id: u64, fill_size: u32, remaining_quantity: u32 },
}

/// Why an order was not submitted.
#[derive(Debug, Clone, PartialEq, Eq)]
pub enum SubmitError {
    /// An order is in an uncertain state.
    SubmissionsPaused,
    /// The log could not be written; the order was not routed.
    WalWriteFailed(String),
    /// The order's state machine refused the submission.
    StateMachine(InvalidTransition),
    /// The broker queue is full; the log row was closed as `Rejected`.
    QueueFull,
    /// An order with this number is tracked already.
    DuplicateOrderId(u64),
}

impl SubmitError {
    /// The refusal in words.
    pub open spec fn text(self) -> Seq<char> {
        match self {
            SubmitError::SubmissionsPaused =>
                "submissions paused: order(s) in uncertain state"@,
            SubmitError::WalWriteFailed(error) => "wal write failed: "@ + error@,
            SubmitError::StateMachine(refused) => "state machine refused submit: "@ + (
            "invalid order state transition: "@ + refused.from.name() + " via "@
                + refused.trigger.name()),
            SubmitError::QueueFull => "order queue full — submission failed"@,
            SubmitError::DuplicateOrderId(id) => "duplicate order_id: "@ + dec_nat(id as nat),
        }
    }

    pub fn describe(&self) -> (r: String)
        ensures
            r@ == self.text(),
    {
        match self {
            SubmitError::SubmissionsPaused =>
                "submissions paused: order(s) in uncertain state".to_owned(),
            SubmitError::WalWriteFailed(error) => {
                let mut out = "wal write failed: ".to_owned();
                out.append(error.as_str());
                out
            },
            SubmitError::StateMachine(refused) => {
                let mut out = "state machine refused submit: ".to_owned();
                out.append(refused.describe().as_str());
                out
            },
            SubmitError::QueueFull => "order queue full — submission failed".to_owned(),
            SubmitError::DuplicateOrderId(id) => {
                let mut out = "duplicate order_id: ".to_owned();
                push_u64(&mut out, *id);
                out
            },
        }
    }
}

/// The broker's answer about an uncertain order.
#[derive(Debug, Clone, Copy, PartialEq, Eq, Structural)]
pub enum BrokerOrderStatus {
    Filled,
    Rejected,
    /// No final answer yet.
    StillPending,
    /// The order never reached the exchange.
    Unknown,
}

/// What follows from the broker's answer.
#[derive(Debug, Clone, Copy, PartialEq, Eq, Structural)]
pub enum ResolveOutcome {
    /// Filled, and a bracket protects the position.
    FilledBracketProtects,
    /// Filled without a bracket: the position has to be flattened.
    FilledFlattenRequired { symbol_id: u32, side: Side, quantity: u32 },
    /// No position came of the order.
    RejectedNoPosition,
    /// Ask again.
    KeepPolling,
    /// The order is not tracked or not being reconciled.
    NotApplicable,
    /// The reconciliation took too long and the circuit breaker was told.
    EscalatedToCircuitBreaker,
    /// Filled without a bracket, but on which side is not known: the circuit
    /// breaker was told.
    FilledFlattenSideUnknown { order_id: u64, symbol_id: u32 },
}

// ---------------------------------------------------------------------------
// Model
// ---------------------------------------------------------------------------

/// The manager as a mathematical value.
#[verifier::ext_equal]
pub struct ManagerModel {
    pub orders: Map<u64, TrackedOrder>,
    pub machines: Map<u64, OrderStateMachine>,
    /// When the reconciliation of an order began.
    pub recon: Map<u64, UnixNanos>,
    /// The bracket that an order belongs to.
    pub brackets: Map<u64, u64>,
    pub log: JournalLog,
    pub wal_enabled: bool,
    pub wal_ops: Seq<WalOp>,
    pub paused: bool,
    pub timeout: u64,
    pub armed: bool,
    pub trips: Seq<InvalidTransition>,
}

/// Whether the order's fate is unknown.
pub open spec fn in_doubt(state: OrderState) -> bool {
    state is Uncertain || state is PendingRecon
}

/// Whether the fill's size can be true of an order with `remaining` left.
pub open spec fn fill_size_ok(fill: FillEvent, remaining: u32) -> bool {
    match fill.fill_type {
        FillType::Full => 0 < fill.fill_size <= remaining,
        FillType::Partial { remaining: left } => 0 < fill.fill_size <= remaining && left
            < remaining,
        FillType::Rejected { .. } => true,
    }
}

/// The trigger that a fill stands for.
pub open spec fn fill_trigger(fill_type: FillType) -> OrderTransition {
    match fill_type {
        FillType::Full => OrderTransition::Fill,
        FillType::Partial { .. } => OrderTransition::PartiallyFill,
        FillType::Rejected { .. } => OrderTransition::Reject,
    }
}

/// The state that a fill leads to.
pub open spec fn fill_state(fill_type: FillType) -> OrderState {
    match fill_type {
        FillType::Full => OrderState::Filled,
        FillType::Partial { .. } => OrderState::PartialFill,
        FillType::Rejected { .. } => OrderState::Rejected,
    }
}

/// What is left of an order after an accepted fill.
pub open spec fn remaining_after(fill_type: FillType, remaining: u32) -> u32 {
    match fill_type {
        FillType::Full => 0,
        FillType::Partial { remaining: left } => left,
        FillType::Rejected { .. } => remaining,
    }
}

/// The journal entry of a state change.
pub open spec fn state_change(
    timestamp: UnixNanos,
    order_id: u64,
    decision_id: u64,
    from: OrderState,
    to: OrderState,
) -> EventModel {
    EventModel::OrderState {
        timestamp,
        order_id,
        decision_id: Some(decision_id),
        from_state: from.name(),
        to_state: to.name(),
        source: TradeSource::Live,
    }
}

impl ManagerModel {
    /// Records are filed under their own numbers, the orders can be counted, and
    /// submissions are paused exactly while some order's fate is unknown.
    pub open spec fn consistent(self) -> bool {
        &&& self.orders.dom().finite()
        &&& forall|id: u64| #[trigger]
            self.orders.contains_key(id) ==> self.orders[id].order_id == id
        &&& forall|id: u64| #[trigger]
            self.machines.contains_key(id) ==> {
                &&& self.machines[id].order_id == id
                &&& !(self.machines[id].state is Idle)
                &&& !self.machines[id].state.terminal()
                &&& self.machines[id].submitted_at is Some
            }
        &&& forall|id: u64| #[trigger]
            self.recon.contains_key(id) ==> self.machines.contains_key(id)
                && self.machines[id].state is PendingRecon
        &&& forall|id: u64| #[trigger]
            self.brackets.contains_key(id) ==> self.machines.contains_key(id)
        &&& self.paused == self.any_in_doubt()
    }

    pub open spec fn any_in_doubt(self) -> bool {
        exists|id: u64| #[trigger]
            self.machines.contains_key(id) && in_doubt(self.machines[id].state)
    }

    /// A fill confirms an order that was only submitted.
    pub open spec fn confirms(self, fill: FillEvent) -> bool {
        self.orders[fill.order_id].state is Submitted && !(fill.fill_type is Rejected)
    }

    /// The manager once the confirmation implied by a fill was noted.
    pub open spec fn confirmed_by(self, fill: FillEvent) -> ManagerModel {
        let id = fill.order_id;
        if self.confirms(fill) {
            ManagerModel {
                orders: self.orders.insert(
                    id,
                    TrackedOrder { state: OrderState::Confirmed, ..self.orders[id] },
                ),
                machines: if self.machines.contains_key(id) {
                    self.machines.insert(
                        id,
                        self.machines[id].after(OrderTransition::Confirm, fill.timestamp),
                    )
                } else {
                    self.machines
                },
                trips: if self.machines.contains_key(id) {
                    self.trips + self.machines[id].trips_of(OrderTransition::Confirm)
                } else {
                    self.trips
                },
                log: self.log.record(
                    state_change(
                        fill.timestamp,
                        id,
                        fill.decision_id,
                        OrderState::Submitted,
                        OrderState::Confirmed,
                    ),
                ),
                ..self
            }
        } else {
            self
        }
    }

    /// Whether the order's state has an arc for the fill. The state machine
    /// decides; without one, the tracked state does.
    pub open spec fn has_arc_for(self, fill: FillEvent) -> bool {
        let id = fill.order_id;
        if self.machines.contains_key(id) {
            next_state(self.machines[id].state, fill_trigger(fill.fill_type)) is Some
        } else {
            reaches(self.orders[id].state, fill_state(fill.fill_type))
        }
    }

    /// The manager after a fill that the order's state has no arc for.
    pub open spec fn fill_refused(self, fill: FillEvent) -> ManagerModel {
        let id = fill.order_id;
        ManagerModel {
            trips: if self.machines.contains_key(id) {
                self.trips + self.machines[id].trips_of(fill_trigger(fill.fill_type))
            } else {
                self.trips
            },
            ..self
        }
    }

    /// The manager after a fill that the order's state has an arc for.
    pub open spec fn fill_accepted(self, fill: FillEvent) -> ManagerModel {
        let id = fill.order_id;
        let to = fill_state(fill.fill_type);
        let entry = state_change(
            fill.timestamp,
            id,
            fill.decision_id,
            self.orders[id].state,
            to,
        );
        if to.terminal() {
            ManagerModel {
                orders: self.orders.remove(id),
                machines: self.machines.remove(id),
                brackets: self.brackets.remove(id),
                recon: self.recon.remove(id),
                log: self.log.record(entry),
                wal_ops: if self.wal_enabled {
                    self.wal_ops.push(
                        WalOp::MarkResolved {
                            order_id: id,
                            final_state: to,
                            failure_at: Some(fill.timestamp),
                        },
                    )
                } else {
                    self.wal_ops
                },
                ..self
            }
        } else {
            ManagerModel {
                orders: self.orders.insert(
                    id,
                    TrackedOrder {
                        state: to,
                        remaining_quantity: remaining_after(
                            fill.fill_type,
                            self.orders[id].remaining_quantity,
                        ),
                        ..self.orders[id]
                    },
                ),
                machines: if self.machines.contains_key(id) {
                    self.machines.insert(
                        id,
                        self.machines[id].after(fill_trigger(fill.fill_type), fill.timestamp),
                    )
                } else {
                    self.machines
                },
                log: self.log.record(entry),
                ..self
            }
        }
    }

    /// The manager after a fill.
    pub open spec fn after_fill(self, fill: FillEvent) -> ManagerModel {
        if !self.orders.contains_key(fill.order_id) {
            self
        } else if !fill_size_ok(fill, self.orders[fill.order_id].remaining_quantity) {
            self
        } else {
            let confirmed = self.confirmed_by(fill);
            if confirmed.has_arc_for(fill) {
                confirmed.fill_accepted(fill)
            } else {
                confirmed.fill_refused(fill)
            }
        }
    }

    /// What is reported of a fill.
    pub open spec fn fill_outcome(self, fill: FillEvent) -> FillOutcome {
        let id = fill.order_id;
        let order = self.orders[id];
        if !self.orders.contains_key(id) {
            FillOutcome::Orphan { order_id: id }
        } else if !fill_size_ok(fill, order.remaining_quantity) {
            FillOutcome::InvalidFillSize {
                order_id: id,
                fill_size: fill.fill_size,
                remaining_quantity: order.remaining_quantity,
            }
        } else if !self.confirmed_by(fill).has_arc_for(fill) {
            FillOutcome::InvalidTransition {
                order_id: id,
                from: self.confirmed_by(fill).orders[id].state,
                to: fill_state(fill.fill_type),
            }
        } else {
            match fill.fill_type {
                FillType::Full => FillOutcome::Filled {
                    order_id: id,
                    decision_id: order.decision_id,
                },
                FillType::Partial { remaining } => FillOutcome::Partial {
                    order_id: id,
                    decision_id: order.decision_id,
                    remaining,
                },
                FillType::Rejected { reason } => FillOutcome::Rejected {
                    order_id: id,
                    decision_id: order.decision_id,
                    reason,
                },
            }
        }
    }

    /// The manager after the fills, applied in order.
    pub open spec fn after_fills(self, fills: Seq<FillEvent>) -> ManagerModel
        decreases fills.len(),
    {
        if fills.len() == 0 {
            self
        } else {
            self.after_fills(fills.drop_last()).after_fill(fills.last())
        }
    }

    /// Whether an order with this number is known.
    pub open spec fn knows(self, order_id: u64) -> bool {
        self.orders.contains_key(order_id) || self.machines.contains_key(order_id)
    }

    /// The manager after an order went out.
    pub open spec fn after_submit(self, event: OrderEvent, bracket_id: Option<u64>) -> ManagerModel {
        ManagerModel {
            orders: self.orders.insert(event.order_id, TrackedOrder::submitted(event)),
            machines: self.machines.insert(
                event.order_id,
                OrderStateMachine {
                    state: OrderState::Submitted,
                    order_id: event.order_id,
                    decision_id: event.decision_id,
                    submitted_at: Some(event.timestamp),
                    breaker_armed: self.armed,
                },
            ),
            brackets: match bracket_id {
                Some(id) => self.brackets.insert(event.order_id, id),
                None => self.brackets,
            },
            log: self.log.record(
                state_change(
                    event.timestamp,
                    event.order_id,
                    event.decision_id,
                    OrderState::Idle,
                    OrderState::Submitted,
                ),
            ),
            ..self
        }
    }

    /// The manager after the broker queue had no room for an order.
    pub open spec fn after_queue_full(self, order_id: u64) -> ManagerModel {
        ManagerModel {
            wal_ops: if self.wal_enabled {
                self.wal_ops.push(
                    WalOp::MarkResolved {
                        order_id,
                        final_state: OrderState::Rejected,
                        failure_at: None,
                    },
                )
            } else {
                self.wal_ops
            },
            ..self
        }
    }

    /// The orders that have been `Submitted` for longer than the timeout.
    pub open spec fn expired(self, now: UnixNanos) -> Set<u64> {
        self.machines.dom().filter(|id: u64| self.is_expired(id, now))
    }

    pub open spec fn is_expired(self, id: u64, now: UnixNanos) -> bool {
        let machine = self.machines[id];
        machine.state is Submitted && (machine.submitted_at matches Some(since) && now.since(since)
            > self.timeout)
    }

    /// The manager after one submitted order ran out of time.
    pub open spec fn after_timeout(self, order_id: u64, now: UnixNanos) -> ManagerModel {
        ManagerModel {
            machines: self.machines.insert(
                order_id,
                self.machines[order_id].after(OrderTransition::Timeout, now),
            ),
            orders: self.with_order_state(order_id, OrderState::Uncertain),
            wal_ops: self.with_wal_state(order_id, OrderState::Uncertain),
            log: self.log.record(
                state_change(
                    now,
                    order_id,
                    self.machines[order_id].decision_id,
                    OrderState::Submitted,
                    OrderState::Uncertain,
                ),
            ),
            paused: true,
            ..self
        }
    }

    /// The manager after these orders ran out of time, one after the other.
    pub open spec fn after_timeouts(self, ids: Seq<u64>, now: UnixNanos) -> ManagerModel
        decreases ids.len(),
    {
        if ids.len() == 0 {
            self
        } else {
            self.after_timeouts(ids.drop_last(), now).after_timeout(ids.last(), now)
        }
    }

    /// Whether, from `self` to `after`, exactly the expired orders became
    /// uncertain and submissions are paused if there was any.
    pub open spec fn timed_out(self, after: ManagerModel, now: UnixNanos) -> bool {
        &&& after.machines.dom() == self.machines.dom()
        &&& after.orders.dom() == self.orders.dom()
        &&& after.brackets == self.brackets
        &&& after.wal_enabled == self.wal_enabled
        &&& after.timeout == self.timeout
        &&& after.armed == self.armed
        &&& forall|id: u64| #[trigger]
            self.machines.contains_key(id) ==> after.machines[id] == (if self.is_expired(id, now) {
                self.machines[id].after(OrderTransition::Timeout, now)
            } else {
                self.machines[id]
            })
        &&& forall|id: u64| #[trigger]
            self.orders.contains_key(id) ==> after.orders[id] == (if self.expired(now).contains(
                id,
            ) {
                TrackedOrder { state: OrderState::Uncertain, ..self.orders[id] }
            } else {
                self.orders[id]
            })
        &&& after.paused == (self.paused || exists|id: u64| #[trigger]
            self.machines.contains_key(id) && self.is_expired(id, now))
    }

    /// The tracked orders with one of them, if it is tracked, in another state.
    pub open spec fn with_order_state(self, order_id: u64, state: OrderState) -> Map<
        u64,
        TrackedOrder,
    > {
        if self.orders.contains_key(order_id) {
            self.orders.insert(order_id, TrackedOrder { state, ..self.orders[order_id] })
        } else {
            self.orders
        }
    }

    /// The log updates with one more that notes an order's new state.
    pub open spec fn with_wal_state(self, order_id: u64, state: OrderState) -> Seq<WalOp> {
        if self.wal_enabled {
            self.wal_ops.push(WalOp::UpdateState { order_id, new_state: state })
        } else {
            self.wal_ops
        }
    }

    /// The manager once the broker is being asked about an order.
    pub open spec fn after_begin_recon(self, order_id: u64, now: UnixNanos) -> ManagerModel {
        ManagerModel {
            machines: self.machines.insert(
                order_id,
                self.machines[order_id].after(OrderTransition::BeginRecon, now),
            ),
            recon: self.recon.insert(order_id, now),
            orders: self.with_order_state(order_id, OrderState::PendingRecon),
            wal_ops: self.with_wal_state(order_id, OrderState::PendingRecon),
            log: self.log.record(
                state_change(
                    now,
                    order_id,
                    self.machines[order_id].decision_id,
                    OrderState::Uncertain,
                    OrderState::PendingRecon,
                ),
            ),
            ..self
        }
    }

    /// The manager after an order being reconciled was resolved: it is no longer
    /// tracked, and submissions resume unless another order is in doubt.
    pub open spec fn after_resolve(self, order_id: u64, now: UnixNanos) -> ManagerModel {
        let rest = ManagerModel {
            machines: self.machines.remove(order_id),
            orders: self.orders.remove(order_id),
            brackets: self.brackets.remove(order_id),
            recon: self.recon.remove(order_id),
            wal_ops: if self.wal_enabled {
                self.wal_ops.push(
                    WalOp::MarkResolved {
                        order_id,
                        final_state: OrderState::Resolved,
                        failure_at: None,
                    },
                )
            } else {
                self.wal_ops
            },
            log: self.log.record(
                state_change(
                    now,
                    order_id,
                    self.machines[order_id].decision_id,
                    OrderState::PendingRecon,
                    OrderState::Resolved,
                ),
            ),
            ..self
        };
        ManagerModel { paused: self.paused && rest.any_in_doubt(), ..rest }
    }

    /// The manager after the circuit breaker was told of a failed resolution.
    pub open spec fn after_breaker_signal(self) -> ManagerModel {
        ManagerModel {
            trips: if self.armed {
                self.trips.push(resolution_failed())
            } else {
                self.trips
            },
            ..self
        }
    }

    /// Whether an order is being reconciled.
    pub open spec fn reconciling(self, order_id: u64) -> bool {
        self.machines.contains_key(order_id) && self.machines[order_id].state is PendingRecon
    }

    /// What follows from the broker's answer; `logged_side` is the side in the
    /// order's log row.
    pub open spec fn resolve_outcome(
        self,
        order_id: u64,
        status: BrokerOrderStatus,
        logged_side: Option<Side>,
    ) -> ResolveOutcome {
        if !self.reconciling(order_id) {
            ResolveOutcome::NotApplicable
        } else {
            match status {
                BrokerOrderStatus::StillPending => ResolveOutcome::KeepPolling,
                BrokerOrderStatus::Rejected | BrokerOrderStatus::Unknown =>
                    ResolveOutcome::RejectedNoPosition,
                BrokerOrderStatus::Filled => {
                    if self.brackets.contains_key(order_id) {
                        ResolveOutcome::FilledBracketProtects
                    } else if !self.orders.contains_key(order_id) {
                        ResolveOutcome::NotApplicable
                    } else if self.wal_enabled && logged_side is Some {
                        ResolveOutcome::FilledFlattenRequired {
                            symbol_id: self.orders[order_id].symbol_id,
                            side: logged_side->Some_0.flipped(),
                            quantity: self.orders[order_id].original_quantity,
                        }
                    } else {
                        ResolveOutcome::FilledFlattenSideUnknown {
                            order_id,
                            symbol_id: self.orders[order_id].symbol_id,
                        }
                    }
                },
            }
        }
    }

    /// The manager after the broker's answer.
    pub open spec fn after_answer(
        self,
        order_id: u64,
        status: BrokerOrderStatus,
        logged_side: Option<Side>,
        now: UnixNanos,
    ) -> ManagerModel {
        if !self.reconciling(order_id) || status is StillPending {
            self
        } else {
            let resolved = self.after_resolve(order_id, now);
            if self.resolve_outcome(order_id, status, logged_side) is FilledFlattenSideUnknown {
                let told = resolved.after_breaker_signal();
                ManagerModel {
                    log: told.log.record(
                        EventModel::System {
                            timestamp: now,
                            category: "order_manager"@,
                            message: side_unknown_text(order_id, self.orders[order_id].symbol_id),
                        },
                    ),
                    ..told
                }
            } else {
                resolved
            }
        }
    }

    /// The orders whose reconciliation has been open for too long.
    pub open spec fn overdue(self, now: UnixNanos) -> Set<u64> {
        self.recon.dom().filter(
            |id: u64| now.since(self.recon[id]) >= PENDING_RECON_ESCALATION_NANOS,
        )
    }

    /// The manager after every overdue reconciliation was escalated: the breaker
    /// is told once for each, and its clock is stopped.
    pub open spec fn after_escalation(self, now: UnixNanos) -> ManagerModel {
        ManagerModel {
            recon: self.recon.remove_keys(self.overdue(now)),
            trips: if self.armed {
                self.trips + Seq::new(self.overdue(now).len(), |i: int| resolution_failed())
            } else {
                self.trips
            },
            ..self
        }
    }
}

/// The journal text for a fill whose side is not known.
pub open spec fn side_unknown_text(order_id: u64, symbol_id: u32) -> Seq<char> {
    "flatten side unknown for order "@ + dec_nat(order_id as nat) + " (symbol="@ + dec_nat(
        symbol_id as nat,
    ) + ") on resolved Filled — escalated to circuit breaker"@
}

/// The journal text for a log row that could not be closed.
pub open spec fn wal_failure_text(order_id: u64, state: OrderState, error: Seq<char>) -> Seq<char> {
    "wal mark_resolved failed for order "@ + dec_nat(order_id as nat) + " (final="@ + state.name()
        + "): "@ + error + " — recovery will reconcile via broker query"@
}

/// What the circuit breaker is told when a reconciliation cannot be settled.
pub open spec fn resolution_failed() -> InvalidTransition {
    InvalidTransition { from: OrderState::PendingRecon, trigger: OrderTransition::Resolve }
}

/// What running out of time does to each order.
proof fn lemma_timeouts(model: ManagerModel, ids: Seq<u64>, now: UnixNanos)
    requires
        ids.no_duplicates(),
        forall|i: int| 0 <= i < ids.len() ==> model.machines.contains_key(#[trigger] ids[i]),
    ensures
        ({
            let after = model.after_timeouts(ids, now);
            &&& after.machines.dom() == model.machines.dom()
            &&& after.orders.dom() == model.orders.dom()
            &&& after.brackets == model.brackets
            &&& after.wal_enabled == model.wal_enabled
            &&& after.timeout == model.timeout
            &&& after.armed == model.armed
            &&& forall|id: u64| #[trigger]
                model.machines.contains_key(id) ==> after.machines[id] == (if ids.contains(id) {
                    model.machines[id].after(OrderTransition::Timeout, now)
                } else {
                    model.machines[id]
                })
            &&& forall|id: u64| #[trigger]
                model.orders.contains_key(id) ==> after.orders[id] == (if ids.contains(id) {
                    TrackedOrder { state: OrderState::Uncertain, ..model.orders[id] }
                } else {
                    model.orders[id]
                })
            &&& after.paused == (model.paused || ids.len() > 0)
        }),
    decreases ids.len(),
{
    if ids.len() > 0 {
        let rest = ids.drop_last();
        let last = ids.last();
        lemma_timeouts(model, rest, now);
        assert(!rest.contains(last));
        assert(model.machines.contains_key(ids[ids.len() - 1]));
        let before = model.after_timeouts(rest, now);
        let after = model.after_timeouts(ids, now);
        assert(after.machines.dom() =~= model.machines.dom());
        assert(after.orders.dom() =~= model.orders.dom());
        assert forall|id: u64| ids.contains(id) == (rest.contains(id) || id == last) by {
            if rest.contains(id) {
                let at = rest.index_of(id);
                assert(ids[at] == id);
            }
            if ids.contains(id) && id != last {
                let at = ids.index_of(id);
                assert(rest[at] == id);
            }
            if id == last {
                assert(ids[ids.len() - 1] == id);
            }
        }
    }
}

/// Two sets of machines that agree on which orders are in doubt.
proof fn same_doubts(a: ManagerModel, b: ManagerModel)
    requires
        forall|id: u64| #[trigger]
            a.machines.contains_key(id) && in_doubt(a.machines[id].state)
                ==> b.machines.contains_key(id) && in_doubt(b.machines[id].state),
        forall|id: u64| #[trigger]
            b.machines.contains_key(id) && in_doubt(b.machines[id].state)
                ==> a.machines.contains_key(id) && in_doubt(a.machines[id].state),
    ensures
        a.any_in_doubt() == b.any_in_doubt(),
{
}

/// A fill keeps the manager consistent; in particular it neither pauses nor
/// resumes submissions.
pub proof fn fill_keeps_consistency(model: ManagerModel, fill: FillEvent)
    requires
        model.consistent(),
    ensures
        model.after_fill(fill).consistent(),
        model.after_fill(fill).paused == model.paused,
{
    let id = fill.order_id;
    if model.orders.contains_key(id) && fill_size_ok(fill, model.orders[id].remaining_quantity) {
        let confirmed = model.confirmed_by(fill);
        same_doubts(model, confirmed);
        assert(confirmed.consistent());
        same_doubts(confirmed, model.after_fill(fill));
    }
}

// ---------------------------------------------------------------------------
// Manager
// ---------------------------------------------------------------------------

/// Tracks submitted orders and drives their state machines.
pub struct OrderManager {
    orders: HashMap<u64, TrackedOrder>,
    state_machines: HashMap<u64, OrderStateMachine>,
    recon_started_at: HashMap<u64, UnixNanos>,
    bracket_ids: HashMap<u64, u64>,
    journal: JournalSender,
    wal_enabled: bool,
    wal_ops: Vec<WalOp>,
    submissions_paused: bool,
    uncertain_timeout_nanos: u64,
    breaker_armed: bool,
    trips: Vec<InvalidTransition>,
}

impl View for OrderManager {
    type V = ManagerModel;

    closed spec fn view(&self) -> ManagerModel {
        ManagerModel {
            orders: self.orders@,
            machines: self.state_machines@,
            recon: self.recon_started_at@,
            brackets: self.bracket_ids@,
            log: self.journal@,
            wal_enabled: self.wal_enabled,
            wal_ops: self.wal_ops@,
            paused: self.submissions_paused,
            timeout: self.uncertain_timeout_nanos,
            armed: self.breaker_armed,
            trips: self.trips@,
        }
    }
}

impl OrderManager {
    /// Applies one fill to the order that it names.
    pub fn apply_fill(&mut self, fill: &FillEvent) -> (r: FillOutcome)
        requires
            old(self)@.consistent(),
        ensures
            r == old(self)@.fill_outcome(*fill),
            final(self)@ == old(self)@.after_fill(*fill),
            final(self)@.consistent(),
    {
        broadcast use vstd::std_specs::hash::group_hash_axioms;

        let ghost start = self@;
        proof {
            fill_keeps_consistency(start, *fill);
        }
        let mut order = match self.orders.get(&fill.order_id) {
            Some(known) => *known,
            None => {
                return FillOutcome::Orphan { order_id: fill.order_id };
            },
        };

        let size_ok = match fill.fill_type {
            FillType::Full => fill.fill_size != 0 && fill.fill_size <= order.remaining_quantity,
            FillType::Partial { remaining } => fill.fill_size != 0 && fill.fill_size
                <= order.remaining_quantity && remaining < order.remaining_quantity,
            FillType::Rejected { .. } => true,
        };
        if !size_ok {
            return FillOutcome::InvalidFillSize {
                order_id: fill.order_id,
                fill_size: fill.fill_size,
                remaining_quantity: order.remaining_quantity,
            };
        }
        let is_rejection = match fill.fill_type {
            FillType::Rejected { .. } => true,
            _ => false,
        };
        if order.state == OrderState::Submitted && !is_rejection {
            order.state = OrderState::Confirmed;
            self.orders.insert(fill.order_id, order);
            if let Some(machine) = self.state_machines.get(&fill.order_id) {
                let mut machine = *machine;
                let _ = machine.transition(
                    OrderTransition::Confirm,
                    fill.timestamp,
                    &mut self.trips,
                );
                self.state_machines.insert(fill.order_id, machine);
            }
            self.journal_state_change(
                fill.timestamp,
                fill.order_id,
                fill.decision_id,
                OrderState::Submitted,
                OrderState::Confirmed,
            );
        }
        let ghost confirmed = self@;
        assert(confirmed == start.confirmed_by(*fill));

        let from_state = order.state;
        let (trigger, to_state, outcome) = match fill.fill_type {
            FillType::Full => (
                OrderTransition::Fill,
                OrderState::Filled,
                FillOutcome::Filled {
                    order_id: order.order_id,
                    decision_id: order.decision_id,
                },
            ),
            FillType::Partial { remaining } => (
                OrderTransition::PartiallyFill,
                OrderState::PartialFill,
                FillOutcome::Partial {
                    order_id: order.order_id,
                    decision_id: order.decision_id,
                    remaining,
                },
            ),
            FillType::Rejected { reason } => (
                OrderTransition::Reject,
                OrderState::Rejected,
                FillOutcome::Rejected {
                    order_id: order.order_id,
                    decision_id: order.decision_id,
                    reason,
                },
            ),
        };

        let found = match self.state_machines.get(&fill.order_id) {
            Some(machine) => Some(*machine),
            None => None,
        };
        let accepted = match found {
            Some(m) => {
                let mut machine = m;
                match machine.transition(trigger, fill.timestamp, &mut self.trips) {
                    Ok(_) => {
                        self.state_machines.insert(fill.order_id, machine);
                        true
                    },
                    Err(_) => false,
                }
            },
            None => can_transition_to(from_state, to_state),
        };
        if !accepted {
            return FillOutcome::InvalidTransition {
                order_id: fill.order_id,
                from: from_state,
                to: to_state,
            };
        }
        order.state = to_state;
        match fill.fill_type {
            FillType::Partial { remaining } => {
                order.remaining_quantity = remaining;
            },
            FillType::Full => {
                order.remaining_quantity = 0;
            },
            FillType::Rejected { .. } => {},
        }

        self.journal_state_change(
            fill.timestamp,
            fill.order_id,
            fill.decision_id,
            from_state,
            to_state,
        );

        if to_state.is_terminal() {
            if self.wal_enabled {
                self.wal_ops.push(
                    WalOp::MarkResolved {
                        order_id: fill.order_id,
                        final_state: to_state,
                        failure_at: Some(fill.timestamp),
                    },
                );
            }
            self.orders.remove(&fill.order_id);
            self.state_machines.remove(&fill.order_id);
            self.bracket_ids.remove(&fill.order_id);
            self.recon_started_at.remove(&fill.order_id);
        } else {
            self.orders.insert(fill.order_id, order);
        }
        outcome
    }

    /// A manager that keeps no write-ahead log.
    pub fn new(journal: JournalSender) -> (r: Self)
        ensures
            r@ == (ManagerModel {
                orders: Map::empty(),
                machines: Map::empty(),
                recon: Map::empty(),
                brackets: Map::empty(),
                log: journal@,
                wal_enabled: false,
                wal_ops: Seq::empty(),
                paused: false,
                timeout: DEFAULT_UNCERTAIN_TIMEOUT_NANOS,
                armed: false,
                trips: Seq::empty(),
            }),
            r@.consistent(),
    {
        broadcast use vstd::std_specs::hash::group_hash_axioms;

        OrderManager {
            orders: HashMap::new(),
            state_machines: HashMap::new(),
            recon_started_at: HashMap::new(),
            bracket_ids: HashMap::new(),
            journal,
            wal_enabled: false,
            wal_ops: Vec::new(),
            submissions_paused: false,
            uncertain_timeout_nanos: DEFAULT_UNCERTAIN_TIMEOUT_NANOS,
            breaker_armed: false,
            trips: Vec::new(),
        }
    }

    /// A manager whose orders are written to a write-ahead log.
    pub fn with_wal(journal: JournalSender) -> (r: Self)
        ensures
            r@ == (ManagerModel {
                orders: Map::empty(),
                machines: Map::empty(),
                recon: Map::empty(),
                brackets: Map::empty(),
                log: journal@,
                wal_enabled: true,
                wal_ops: Seq::empty(),
                paused: false,
                timeout: DEFAULT_UNCERTAIN_TIMEOUT_NANOS,
                armed: false,
                trips: Seq::empty(),
            }),
            r@.consistent(),
    {
        let mut manager = OrderManager::new(journal);
        manager.wal_enabled = true;
        manager
    }

    /// Sets how long an order may stay `Submitted`; at least one nanosecond.
    pub fn with_uncertain_timeout(self, nanos: u64) -> (r: Self)
        ensures
            r@ == (ManagerModel {
                timeout: if nanos == 0 {
                    1
                } else {
                    nanos
                },
                ..self@
            }),
            self@.consistent() ==> r@.consistent(),
    {
        let mut manager = self;
        manager.uncertain_timeout_nanos = if nanos == 0 {
            1
        } else {
            nanos
        };
        proof {
            same_doubts(self@, manager@);
        }
        manager
    }

    /// Passes refused transitions and failed reconciliations on to a breaker.
    pub fn with_circuit_breaker(self) -> (r: Self)
        ensures
            r@ == (ManagerModel { armed: true, ..self@ }),
            self@.consistent() ==> r@.consistent(),
    {
        let mut manager = self;
        manager.breaker_armed = true;
        proof {
            same_doubts(self@, manager@);
        }
        manager
    }

    /// Tracks an order that was routed elsewhere, so that its fills are matched.
    pub fn track(&mut self, order: TrackedOrder)
        ensures
            final(self)@ == (ManagerModel {
                orders: old(self)@.orders.insert(order.order_id, order),
                ..old(self)@
            }),
            old(self)@.consistent() ==> final(self)@.consistent(),
    {
        broadcast use vstd::std_specs::hash::group_hash_axioms;

        self.orders.insert(order.order_id, order);
        proof {
            same_doubts(old(self)@, self@);
        }
    }

    pub fn get(&self, order_id: u64) -> (r: Option<&TrackedOrder>)
        ensures
            r is Some <==> self@.orders.contains_key(order_id),
            r matches Some(order) ==> *order == self@.orders[order_id],
    {
        broadcast use vstd::std_specs::hash::group_hash_axioms;

        self.orders.get(&order_id)
    }

    pub fn state_machine(&self, order_id: u64) -> (r: Option<&OrderStateMachine>)
        ensures
            r is Some <==> self@.machines.contains_key(order_id),
            r matches Some(machine) ==> *machine == self@.machines[order_id],
    {
        broadcast use vstd::std_specs::hash::group_hash_axioms;

        self.state_machines.get(&order_id)
    }

    pub fn tracked_count(&self) -> (r: usize)
        ensures
            r == self@.orders.dom().len(),
    {
        broadcast use vstd::std_specs::hash::group_hash_axioms;

        self.orders.len()
    }

    pub fn submissions_paused(&self) -> (r: bool)
        ensures
            r == self@.paused,
    {
        self.submissions_paused
    }

    /// Whether an order could go out now, and the log row to write first.
    ///
    /// The row is owed where the manager keeps a log; [`Self::submit_order`] is
    /// then told whether it was written.
    pub fn prepare_submission(&self, event: &OrderEvent, bracket_id: Option<u64>) -> (r: Result<
        Option<PendingOrder>,
        SubmitError,
    >)
        ensures
            r matches Err(SubmitError::SubmissionsPaused) <==> self@.paused,
            r is Err && !self@.paused <==> !self@.paused && self@.knows(event.order_id),
            r is Err && !self@.paused ==> r == Err::<Option<PendingOrder>, SubmitError>(
                SubmitError::DuplicateOrderId(event.order_id),
            ),
            r matches Ok(row) ==> row == (if self@.wal_enabled {
                Some(pending_row(*event, bracket_id))
            } else {
                None
            }),
    {
        broadcast use vstd::std_specs::hash::group_hash_axioms;

        if self.submissions_paused {
            return Err(SubmitError::SubmissionsPaused);
        }
        if self.orders.contains_key(&event.order_id) || self.state_machines.contains_key(
            &event.order_id,
        ) {
            return Err(SubmitError::DuplicateOrderId(event.order_id));
        }
        if self.wal_enabled {
            Ok(Some(write_before_submit(event, bracket_id)))
        } else {
            Ok(None)
        }
    }

    /// Submits an order: its log row was written (or not, as `wal_write` tells),
    /// its state machine is started, and it is pushed onto the broker queue.
    ///
    /// Where the manager keeps no log, `wal_write` is ignored.
    pub fn submit_order(
        &mut self,
        event: OrderEvent,
        queue: &mut OrderQueue,
        bracket_id: Option<u64>,
        wal_write: Result<(), String>,
    ) -> (r: Result<(), SubmitError>)
        requires
            old(self)@.consistent(),
        ensures
            final(self)@.consistent(),
            final(queue).limit() == old(queue).limit(),
            r is Ok <==> !old(self)@.paused && !old(self)@.knows(event.order_id) && !(
            old(self)@.wal_enabled && wal_write is Err) && old(queue)@.len() < old(queue).limit(),
            r is Ok ==> final(queue)@ == old(queue)@.push(event) && final(self)@
                == old(self)@.after_submit(event, bracket_id),
            r is Err ==> final(queue)@ == old(queue)@,
            r is Err && !(r matches Err(SubmitError::QueueFull)) ==> final(self)@ == old(self)@,
            r matches Err(SubmitError::QueueFull) ==> final(self)@ == old(self)@.after_queue_full(
                event.order_id,
            ),
            r matches Err(SubmitError::SubmissionsPaused) <==> old(self)@.paused,
            r matches Err(SubmitError::DuplicateOrderId(id)) ==> id == event.order_id,
            r matches Err(SubmitError::DuplicateOrderId(_)) <==> !old(self)@.paused
                && old(self)@.knows(event.order_id),
            r matches Err(SubmitError::WalWriteFailed(text)) ==> wal_write is Err && text@
                == wal_write->Err_0@,
            r matches Err(SubmitError::WalWriteFailed(_)) <==> !old(self)@.paused
                && !old(self)@.knows(event.order_id) && old(self)@.wal_enabled && wal_write is Err,
            !(r matches Err(SubmitError::StateMachine(_))),
    {
        broadcast use vstd::std_specs::hash::group_hash_axioms;

        if self.submissions_paused {
            return Err(SubmitError::SubmissionsPaused);
        }
        if self.orders.contains_key(&event.order_id) || self.state_machines.contains_key(
            &event.order_id,
        ) {
            return Err(SubmitError::DuplicateOrderId(event.order_id));
        }
        if self.wal_enabled {
            if let Err(text) = wal_write {
                return Err(SubmitError::WalWriteFailed(text));
            }
        }
        let mut machine = OrderStateMachine::new(event.order_id, event.decision_id);
        if self.breaker_armed {
            machine = machine.with_circuit_breaker();
        }
        let ghost trips_before = self.trips@;
        match machine.transition(OrderTransition::Submit, event.timestamp, &mut self.trips) {
            Ok(_) => {},
            Err(refused) => {
                return Err(SubmitError::StateMachine(refused));
            },
        }
        assert(self.trips@ =~= trips_before);

        if !queue.try_push(event) {
            if self.wal_enabled {
                self.wal_ops.push(
                    WalOp::MarkResolved {
                        order_id: event.order_id,
                        final_state: OrderState::Rejected,
                        failure_at: None,
                    },
                );
            }
            proof {
                same_doubts(old(self)@, self@);
            }
            return Err(SubmitError::QueueFull);
        }
        self.state_machines.insert(event.order_id, machine);
        self.orders.insert(event.order_id, TrackedOrder::from_submission(&event));
        if let Some(id) = bracket_id {
            self.bracket_ids.insert(event.order_id, id);
        }
        self.journal_state_change(
            event.timestamp,
            event.order_id,
            event.decision_id,
            OrderState::Idle,
            OrderState::Submitted,
        );
        proof {
            same_doubts(old(self)@, self@);
        }
        Ok(())
    }

    /// Applies every waiting fill, oldest first, and counts them.
    pub fn process_pending_fills(&mut self, queue: &mut FillQueue) -> (r: usize)
        requires
            old(self)@.consistent(),
        ensures
            r == old(queue)@.len(),
            final(queue)@ == Seq::<FillEvent>::empty(),
            final(queue).limit() == old(queue).limit(),
            final(self)@ == old(self)@.after_fills(old(queue)@),
            final(self)@.consistent(),
    {
        let ghost start = self@;
        let ghost fills = queue@;
        let mut count: usize = 0;
        let total: usize = queue.len();
        while count < total
            invariant
                count <= total,
                total == fills.len(),
                queue@ == fills.subrange(count as int, fills.len() as int),
                queue.limit() == old(queue).limit(),
                self@ == start.after_fills(fills.take(count as int)),
                self@.consistent(),
            decreases total - count,
        {
            let ghost next = queue@;
            if let Some(fill) = queue.try_pop() {
                proof {
                    assert(fill == fills[count as int]);
                    assert(fills.take(count + 1).drop_last() =~= fills.take(count as int));
                    assert(fills.take(count + 1).last() == fill);
                }
                count += 1;
                let _ = self.apply_fill(&fill);
            }
        }
        assert(fills.take(fills.len() as int) =~= fills);
        count
    }

    /// Periodic housekeeping: timeouts first, overdue reconciliations second.
    pub fn tick(&mut self, now: UnixNanos)
        requires
            old(self)@.consistent(),
        ensures
            exists|ids: Seq<u64>| #[trigger]
                lists_exactly(ids, old(self)@.expired(now)) && final(self)@
                    == old(self)@.after_timeouts(ids, now).after_escalation(now),
            old(self)@.timed_out(final(self)@, now),
            final(self)@.consistent(),
    {
        self.check_timeouts(now);
        self.check_pending_recon_escalation(now);
    }

    /// Moves every order that was submitted too long ago to `Uncertain` and
    /// pauses submissions. The orders are taken in no particular order.
    pub fn check_timeouts(&mut self, now: UnixNanos)
        requires
            old(self)@.consistent(),
        ensures
            exists|ids: Seq<u64>| #[trigger]
                lists_exactly(ids, old(self)@.expired(now)) && final(self)@
                    == old(self)@.after_timeouts(ids, now),
            old(self)@.timed_out(final(self)@, now),
            final(self)@.consistent(),
    {
        broadcast use vstd::std_specs::hash::group_hash_axioms;

        let ghost start = self@;
        let known: Vec<u64> = keys_u64(&self.state_machines);
        let mut ids: Vec<u64> = Vec::new();
        let mut i: usize = 0;
        while i < known.len()
            invariant
                i <= known@.len(),
                lists_exactly(known@, start.machines.dom()),
                self@ == start,
                ids@.no_duplicates(),
                forall|id: u64|
                    ids@.contains(id) ==> start.is_expired(id, now) && known@.take(
                        i as int,
                    ).contains(id),
                forall|j: int|
                    0 <= j < i && start.is_expired(known@[j], now) ==> ids@.contains(
                        #[trigger] known@[j],
                    ),
            decreases known@.len() - i,
        {
            let id: u64 = known[i];
            assert(known@.to_set().contains(id));
            let ghost before = ids@;
            if let Some(machine) = self.state_machines.get(&id) {
                if machine.state == OrderState::Submitted {
                    if let Some(since) = machine.submitted_at {
                        if now.saturating_since(since) > self.uncertain_timeout_nanos {
                            ids.push(id);
                        }
                    }
                }
            }
            proof {
                assert(known@.take(i + 1) =~= known@.take(i as int).push(id));
                assert(!known@.take(i as int).contains(id));
                assert forall|other: u64| ids@.contains(other) implies start.is_expired(other, now)
                    && known@.take(i + 1).contains(other) by {
                    if before.contains(other) {
                        let at = known@.take(i as int).index_of(other);
                        assert(known@.take(i + 1)[at] == other);
                    } else {
                        assert(other == id);
                        assert(known@.take(i + 1)[i as int] == id);
                    }
                }
                if start.is_expired(id, now) {
                    assert(ids@ == before.push(id));
                    assert(ids@[ids@.len() - 1] == id);
                }
                assert forall|j: int| 0 <= j < i + 1 && start.is_expired(
                    known@[j],
                    now,
                ) implies ids@.contains(#[trigger] known@[j]) by {
                    if j < i {
                        assert(before.contains(known@[j]));
                        let at = before.index_of(known@[j]);
                        assert(ids@[at] == known@[j]);
                    }
                }
            }
            i += 1;
        }
        proof {
            assert(known@.take(known@.len() as int) =~= known@);
            assert forall|id: u64| ids@.to_set().contains(id) == start.expired(now).contains(id) by {
                if start.expired(now).contains(id) {
                    assert(known@.to_set().contains(id));
                    let at = known@.index_of(id);
                    assert(known@[at] == id);
                }
                if ids@.contains(id) {
                    assert(known@.contains(id));
                    assert(known@.to_set().contains(id));
                }
            }
            assert(ids@.to_set() =~= start.expired(now));
            assert(ids@.take(0) =~= Seq::<u64>::empty());
            assert forall|j: int| 0 <= j < ids@.len() implies start.expired(now).contains(
                #[trigger] ids@[j],
            ) by {
                assert(ids@.to_set().contains(ids@[j]));
            }
        }

        let mut k: usize = 0;
        while k < ids.len()
            invariant
                k <= ids@.len(),
                lists_exactly(ids@, start.expired(now)),
                ids@.no_duplicates(),
                ids@.to_set() == start.expired(now),
                forall|j: int|
                    0 <= j < ids@.len() ==> start.machines.contains_key(#[trigger] ids@[j]),
                self@ == start.after_timeouts(ids@.take(k as int), now),
                self@.consistent(),
                forall|j: int|
                    k <= j < ids@.len() ==> self@.machines.contains_key(#[trigger] ids@[j])
                        && self@.machines[ids@[j]].state is Submitted,
            decreases ids@.len() - k,
        {
            broadcast use vstd::std_specs::hash::group_hash_axioms;

            let id: u64 = ids[k];
            let ghost current = self@;
            let found = match self.state_machines.get(&id) {
                Some(machine) => Some(*machine),
                None => None,
            };
            assert(found is Some);
            if let Some(m) = found {
                let mut machine = m;
                let moved = machine.transition(OrderTransition::Timeout, now, &mut self.trips);
                assert(self.trips@ =~= current.trips);
                if moved.is_ok() {
                    self.state_machines.insert(id, machine);
                    self.submissions_paused = true;
                    self.set_order_state(id, OrderState::Uncertain);
                    if self.wal_enabled {
                        self.wal_ops.push(
                            WalOp::UpdateState { order_id: id, new_state: OrderState::Uncertain },
                        );
                    }
                    self.journal_state_change(
                        now,
                        id,
                        machine.decision_id,
                        OrderState::Submitted,
                        OrderState::Uncertain,
                    );
                }
            }
            proof {
                assert(self@ == current.after_timeout(id, now));
                assert(self@.machines.contains_key(id) && in_doubt(self@.machines[id].state));
                assert(ids@.take(k + 1).drop_last() =~= ids@.take(k as int));
                assert(ids@.take(k + 1).last() == id);
            }
            k += 1;
        }
        proof {
            assert(ids@.take(ids@.len() as int) =~= ids@);
            lemma_timeouts(start, ids@, now);
            assert forall|id: u64| ids@.contains(id) == (start.machines.contains_key(id)
                && start.is_expired(id, now)) by {
                assert(ids@.to_set().contains(id) == start.expired(now).contains(id));
            }
            if ids@.len() > 0 {
                assert(ids@.contains(ids@[0]));
            }
        }
    }

    /// Puts a tracked order into another state; an unknown one is left alone.
    fn set_order_state(&mut self, order_id: u64, state: OrderState)
        ensures
            final(self)@ == (ManagerModel {
                orders: old(self)@.with_order_state(order_id, state),
                ..old(self)@
            }),
    {
        broadcast use vstd::std_specs::hash::group_hash_axioms;

        let found = match self.orders.get(&order_id) {
            Some(order) => Some(*order),
            None => None,
        };
        if let Some(o) = found {
            let mut order = o;
            order.state = state;
            self.orders.insert(order_id, order);
        }
    }

    /// Notes that the broker is being asked about an uncertain order and starts
    /// the clock of its reconciliation.
    pub fn begin_recon(&mut self, order_id: u64, now: UnixNanos) -> (r: Result<
        (),
        InvalidTransition,
    >)
        requires
            old(self)@.consistent(),
        ensures
            final(self)@.consistent(),
            r is Ok <==> old(self)@.machines.contains_key(order_id)
                && old(self)@.machines[order_id].state is Uncertain,
            r is Ok ==> final(self)@ == old(self)@.after_begin_recon(order_id, now),
            r matches Err(refused) ==> refused == (InvalidTransition {
                from: if old(self)@.machines.contains_key(order_id) {
                    old(self)@.machines[order_id].state
                } else {
                    OrderState::Idle
                },
                trigger: OrderTransition::BeginRecon,
            }),
            r is Err ==> final(self)@ == (ManagerModel {
                trips: if old(self)@.machines.contains_key(order_id) {
                    old(self)@.trips + old(self)@.machines[order_id].trips_of(
                        OrderTransition::BeginRecon,
                    )
                } else {
                    old(self)@.trips
                },
                ..old(self)@
            }),
    {
        broadcast use vstd::std_specs::hash::group_hash_axioms;

        let ghost start = self@;
        let mut machine = match self.state_machines.get(&order_id) {
            Some(machine) => *machine,
            None => {
                return Err(
                    InvalidTransition {
                        from: OrderState::Idle,
                        trigger: OrderTransition::BeginRecon,
                    },
                );
            },
        };
        match machine.transition(OrderTransition::BeginRecon, now, &mut self.trips) {
            Ok(_) => {},
            Err(refused) => {
                proof {
                    same_doubts(start, self@);
                }
                return Err(refused);
            },
        }
        assert(self.trips@ =~= start.trips);
        self.state_machines.insert(order_id, machine);
        self.recon_started_at.insert(order_id, now);
        self.set_order_state(order_id, OrderState::PendingRecon);
        if self.wal_enabled {
            self.wal_ops.push(
                WalOp::UpdateState { order_id, new_state: OrderState::PendingRecon },
            );
        }
        self.journal_state_change(
            now,
            order_id,
            machine.decision_id,
            OrderState::Uncertain,
            OrderState::PendingRecon,
        );
        proof {
            assert(start.machines.contains_key(order_id));
            assert(self@.machines.contains_key(order_id));
            same_doubts(start, self@);
        }
        Ok(())
    }

    /// Applies the broker's answer about an order being reconciled.
    ///
    /// `logged_side` is the side that the order's log row holds, where the log
    /// has one.
    pub fn resolve_uncertain(
        &mut self,
        order_id: u64,
        broker_status: BrokerOrderStatus,
        logged_side: Option<Side>,
        now: UnixNanos,
    ) -> (r: ResolveOutcome)
        requires
            old(self)@.consistent(),
        ensures
            r == old(self)@.resolve_outcome(order_id, broker_status, logged_side),
            final(self)@ == old(self)@.after_answer(order_id, broker_status, logged_side, now),
            final(self)@.consistent(),
    {
        broadcast use vstd::std_specs::hash::group_hash_axioms;

        let ghost start = self@;
        match self.state_machines.get(&order_id) {
            Some(machine) => {
                if machine.state != OrderState::PendingRecon {
                    return ResolveOutcome::NotApplicable;
                }
            },
            None => {
                return ResolveOutcome::NotApplicable;
            },
        }
        match broker_status {
            BrokerOrderStatus::Filled => {
                let in_bracket = self.bracket_ids.contains_key(&order_id);
                let known = match self.orders.get(&order_id) {
                    Some(order) => Some(*order),
                    None => None,
                };
                self.transition_to_resolved(order_id, now);
                if in_bracket {
                    return ResolveOutcome::FilledBracketProtects;
                }
                match known {
                    None => ResolveOutcome::NotApplicable,
                    Some(order) => match self.flatten_side_for(logged_side) {
                        Some(side) => ResolveOutcome::FilledFlattenRequired {
                            symbol_id: order.symbol_id,
                            side,
                            quantity: order.original_quantity,
                        },
                        None => {
                            let ghost resolved = self@;
                            if self.breaker_armed {
                                self.trips.push(
                    InvalidTransition {
                        from: OrderState::PendingRecon,
                        trigger: OrderTransition::Resolve,
                    },
                );
                            }
                            let mut message = "flatten side unknown for order ".to_owned();
                            push_u64(&mut message, order_id);
                            message.append(" (symbol=");
                            push_u64(&mut message, order.symbol_id as u64);
                            message.append(
                                ") on resolved Filled — escalated to circuit breaker",
                            );
                            let _ = self.journal.send(
                                EngineEvent::SystemEvent(
                                    SystemEventRecord {
                                        timestamp: now,
                                        category: "order_manager".to_owned(),
                                        message,
                                    },
                                ),
                            );
                            proof {
                                same_doubts(resolved, self@);
                            }
                            ResolveOutcome::FilledFlattenSideUnknown {
                                order_id,
                                symbol_id: order.symbol_id,
                            }
                        },
                    },
                }
            },
            BrokerOrderStatus::Rejected | BrokerOrderStatus::Unknown => {
                self.transition_to_resolved(order_id, now);
                ResolveOutcome::RejectedNoPosition
            },
            BrokerOrderStatus::StillPending => ResolveOutcome::KeepPolling,
        }
    }

    /// The side that flattens what an order on `logged_side` built up.
    fn flatten_side_for(&self, logged_side: Option<Side>) -> (r: Option<Side>)
        ensures
            r == (if self@.wal_enabled && logged_side is Some {
                Some(logged_side->Some_0.flipped())
            } else {
                None
            }),
    {
        if self.wal_enabled {
            match logged_side {
                Some(side) => Some(side.opposite()),
                None => None,
            }
        } else {
            None
        }
    }

    /// Closes an order that is being reconciled.
    fn transition_to_resolved(&mut self, order_id: u64, now: UnixNanos)
        requires
            old(self)@.consistent(),
            old(self)@.reconciling(order_id),
        ensures
            final(self)@ == old(self)@.after_resolve(order_id, now),
            final(self)@.consistent(),
    {
        broadcast use vstd::std_specs::hash::group_hash_axioms;

        let ghost start = self@;
        let found = match self.state_machines.get(&order_id) {
            Some(machine) => Some(*machine),
            None => None,
        };
        if let Some(m) = found {
            let mut machine = m;
            let moved = machine.transition(OrderTransition::Resolve, now, &mut self.trips);
            assert(self.trips@ =~= start.trips);
            if moved.is_ok() {
                if self.wal_enabled {
                    self.wal_ops.push(
                        WalOp::MarkResolved {
                            order_id,
                            final_state: OrderState::Resolved,
                            failure_at: None,
                        },
                    );
                }
                self.journal_state_change(
                    now,
                    order_id,
                    machine.decision_id,
                    OrderState::PendingRecon,
                    OrderState::Resolved,
                );
            }
        }
        self.recon_started_at.remove(&order_id);
        self.bracket_ids.remove(&order_id);
        self.state_machines.remove(&order_id);
        self.orders.remove(&order_id);
        let ghost rest = self@;
        self.maybe_resume_submissions();
        proof {
            let target = start.after_resolve(order_id, now);
            assert(rest.machines == target.machines);
            same_doubts(rest, target);
            assert(start.machines.contains_key(order_id));
            assert(start.any_in_doubt());
            same_doubts(target, self@);
        }
    }

    /// Resumes submissions where no order is in doubt any more.
    fn maybe_resume_submissions(&mut self)
        ensures
            final(self)@ == (ManagerModel {
                paused: old(self)@.paused && old(self)@.any_in_doubt(),
                ..old(self)@
            }),
    {
        broadcast use vstd::std_specs::hash::group_hash_axioms;

        let ids: Vec<u64> = keys_u64(&self.state_machines);
        let mut any = false;
        let mut i: usize = 0;
        while i < ids.len()
            invariant
                i <= ids@.len(),
                lists_exactly(ids@, self@.machines.dom()),
                *self == *old(self),
                any ==> self@.any_in_doubt(),
                !any ==> forall|j: int|
                    0 <= j < i ==> !in_doubt(self@.machines[#[trigger] ids@[j]].state),
            decreases ids@.len() - i,
        {
            let id: u64 = ids[i];
            assert(ids@.to_set().contains(id));
            if let Some(machine) = self.state_machines.get(&id) {
                if machine.state == OrderState::Uncertain || machine.state
                    == OrderState::PendingRecon {
                    assert(self@.machines.contains_key(id) && in_doubt(self@.machines[id].state));
                    any = true;
                }
            }
            i += 1;
        }
        proof {
            if self@.any_in_doubt() && !any {
                let id = choose|id: u64| #[trigger]
                    self@.machines.contains_key(id) && in_doubt(self@.machines[id].state);
                assert(ids@.to_set().contains(id));
                let at = ids@.index_of(id);
                assert(ids@[at] == id);
            }
        }
        if !any && self.submissions_paused {
            self.submissions_paused = false;
        }
    }

    /// Tells the breaker of every reconciliation that has been open too long.
    fn check_pending_recon_escalation(&mut self, now: UnixNanos)
        requires
            old(self)@.consistent(),
        ensures
            final(self)@ == old(self)@.after_escalation(now),
            final(self)@.consistent(),
    {
        broadcast use vstd::std_specs::hash::group_hash_axioms;

        let ghost start = self@;
        let known: Vec<u64> = keys_u64(&self.recon_started_at);
        let ghost mut gone: Set<u64> = Set::empty();
        let ghost mut told: nat = 0;
        let mut i: usize = 0;
        while i < known.len()
            invariant
                i <= known@.len(),
                lists_exactly(known@, start.recon.dom()),
                gone.finite(),
                gone.len() == told,
                forall|id: u64| #[trigger]
                    gone.contains(id) <==> start.overdue(now).contains(id) && known@.take(
                        i as int,
                    ).contains(id),
                self@ == (ManagerModel {
                    recon: start.recon.remove_keys(gone),
                    trips: if start.armed {
                        start.trips + Seq::new(told, |j: int| resolution_failed())
                    } else {
                        start.trips
                    },
                    ..start
                }),
            decreases known@.len() - i,
        {
            broadcast use vstd::std_specs::hash::group_hash_axioms;

            let id: u64 = known[i];
            let ghost before = gone;
            proof {
                assert(known@.to_set().contains(id));
                assert(known@.take(i + 1) =~= known@.take(i as int).push(id));
                assert(!known@.take(i as int).contains(id));
            }
            let overdue = match self.recon_started_at.get(&id) {
                Some(since) => now.saturating_since(*since) >= PENDING_RECON_ESCALATION_NANOS,
                None => false,
            };
            if overdue {
                if self.breaker_armed {
                    self.trips.push(
                    InvalidTransition {
                        from: OrderState::PendingRecon,
                        trigger: OrderTransition::Resolve,
                    },
                );
                }
                self.recon_started_at.remove(&id);
                proof {
                    gone = gone.insert(id);
                    assert(start.recon.remove_keys(before).remove(id) =~= start.recon.remove_keys(
                        gone,
                    ));
                    assert(Seq::new(told, |j: int| resolution_failed()).push(resolution_failed())
                        =~= Seq::new(told + 1, |j: int| resolution_failed()));
                    assert((start.trips + Seq::new(told, |j: int| resolution_failed())).push(
                        resolution_failed(),
                    ) =~= start.trips + Seq::new(told + 1, |j: int| resolution_failed()));
                    told = told + 1;
                }
            }
            proof {
                assert forall|other: u64| #[trigger] gone.contains(other) <==> start.overdue(
                    now,
                ).contains(other) && known@.take(i + 1).contains(other) by {
                    if known@.take(i as int).contains(other) {
                        let at = known@.take(i as int).index_of(other);
                        assert(known@.take(i + 1)[at] == other);
                    }
                    assert(known@.take(i + 1)[i as int] == id);
                }
            }
            i += 1;
        }
        proof {
            assert(known@.take(known@.len() as int) =~= known@);
            assert forall|id: u64| gone.contains(id) == start.overdue(now).contains(id) by {
                if start.overdue(now).contains(id) {
                    assert(known@.to_set().contains(id));
                }
            }
            assert(gone =~= start.overdue(now));
            same_doubts(start, self@);
        }
    }

    /// Journals that the log row of a closed order could not be updated.
    pub fn report_wal_failure(
        &mut self,
        order_id: u64,
        final_state: OrderState,
        timestamp: UnixNanos,
        error: &str,
    )
        ensures
            final(self)@ == (ManagerModel {
                log: old(self)@.log.record(
                    EventModel::System {
                        timestamp,
                        category: "order_wal"@,
                        message: wal_failure_text(order_id, final_state, error@),
                    },
                ),
                ..old(self)@
            }),
            old(self)@.consistent() ==> final(self)@.consistent(),
    {
        let mut message = "wal mark_resolved failed for order ".to_owned();
        push_u64(&mut message, order_id);
        message.append(" (final=");
        message.append(final_state.as_str());
        message.append("): ");
        message.append(error);
        message.append(" — recovery will reconcile via broker query");
        let _ = self.journal.send(
            EngineEvent::SystemEvent(
                SystemEventRecord { timestamp, category: "order_wal".to_owned(), message },
            ),
        );
        proof {
            same_doubts(old(self)@, self@);
        }
    }

    /// Hands over the log updates that are due, oldest first.
    pub fn take_wal_ops(&mut self) -> (r: Vec<WalOp>)
        ensures
            r@ == old(self)@.wal_ops,
            final(self)@ == (ManagerModel { wal_ops: Seq::empty(), ..old(self)@ }),
            old(self)@.consistent() ==> final(self)@.consistent(),
    {
        let mut taken: Vec<WalOp> = Vec::new();
        taken.append(&mut self.wal_ops);
        proof {
            assert(taken@ =~= old(self)@.wal_ops);
            same_doubts(old(self)@, self@);
        }
        taken
    }

    /// Hands over the signals for the circuit breaker, oldest first.
    pub fn take_trips(&mut self) -> (r: Vec<InvalidTransition>)
        ensures
            r@ == old(self)@.trips,
            final(self)@ == (ManagerModel { trips: Seq::empty(), ..old(self)@ }),
            old(self)@.consistent() ==> final(self)@.consistent(),
    {
        let mut taken: Vec<InvalidTransition> = Vec::new();
        taken.append(&mut self.trips);
        proof {
            assert(taken@ =~= old(self)@.trips);
            same_doubts(old(self)@, self@);
        }
        taken
    }

    /// Journals a state change of an order.
    fn journal_state_change(
        &mut self,
        timestamp: UnixNanos,
        order_id: u64,
        decision_id: u64,
        from: OrderState,
        to: OrderState,
    )
        ensures
            final(self)@ == (ManagerModel {
                log: old(self)@.log.record(state_change(timestamp, order_id, decision_id, from, to)),
                ..old(self)@
            }),
    {
        let record = OrderStateChangeRecord {
            timestamp,
            order_id,
            decision_id: Some(decision_id),
            from_state: from.as_str().to_owned(),
            to_state: to.as_str().to_owned(),
            source: TradeSource::Live,
        };
        let _ = self.journal.send(EngineEvent::OrderStateChange(record));
    }
}

} // verus!
