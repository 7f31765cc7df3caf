//! The state machine of one order.
//!
//! ```text
//!   Idle --Submit--> Submitted --Confirm--> Confirmed --Fill--> Filled
//!   Submitted --Reject--> Rejected
//!   Submitted --Timeout--> Uncertain --BeginRecon--> PendingRecon --Resolve--> Resolved
//!   Confirmed --PartiallyFill--> PartialFill --Fill--> Filled
//!   PartialFill --PartiallyFill--> PartialFill
//!   PartialFill --Reject--> Rejected
//! ```
//!
//! Every other pair of state and trigger is refused, and a refusal is passed on
//! to the circuit breaker of a machine that has one.
use vstd::prelude::*;
use vstd::string::StringExecFns;

use crate::types::{OrderState, UnixNanos};

verus! {

/// What happened to an order.
#[derive(Debug, Clone, Copy, PartialEq, Eq, Hash, Structural)]
pub enum OrderTransition {
    /// The order is being routed to the broker.
    Submit,
    /// The broker confirmed receipt.
    Confirm,
    /// A part of the order was filled.
    PartiallyFill,
    /// The rest of the order was filled.
    Fill,
    /// The exchange rejected the order, or what was left of it.
    Reject,
    /// No answer came in time.
    Timeout,
    /// The broker is being asked what became of the order.
    BeginRecon,
    /// The broker's answer was applied.
    Resolve,
}

impl OrderTransition {
    pub open spec fn name(self) -> Seq<char> {
        match self {
            OrderTransition::Submit => "Submit"@,
            OrderTransition::Confirm => "Confirm"@,
            OrderTransition::PartiallyFill => "PartiallyFill"@,
            OrderTransition::Fill => "Fill"@,
            OrderTransition::Reject => "Reject"@,
            OrderTransition::Timeout => "Timeout"@,
            OrderTransition::BeginRecon => "BeginRecon"@,
            OrderTransition::Resolve => "Resolve"@,
        }
    }

    pub fn as_str(self) -> (r: &'static str)
        ensures
            r@ == self.name(),
    {
        match self {
            OrderTransition::Submit => "Submit",
            OrderTransition::Confirm => "Confirm",
            OrderTransition::PartiallyFill => "PartiallyFill",
            OrderTransition::Fill => "Fill",
            OrderTransition::Reject => "Reject",
            OrderTransition::Timeout => "Timeout",
            OrderTransition::BeginRecon => "BeginRecon",
            OrderTransition::Resolve => "Resolve",
        }
    }
}

/// A trigger that the state has no arc for.
#[derive(Debug, Clone, Copy, PartialEq, Eq, Structural)]
pub struct InvalidTransition {
    pub from: OrderState,
    pub trigger: OrderTransition,
}

impl InvalidTransition {
    /// The refusal in words.
    pub fn describe(&self) -> (r: String)
        ensures
            r@ == "invalid order state transition: "@ + self.from.name() + " via "@
                + self.trigger.name(),
    {
        let mut out = "invalid order state transition: ".to_owned();
        out.append(self.from.as_str());
        out.append(" via ");
        out.append(self.trigger.as_str());
        out
    }
}

/// The arcs of the state machine.
pub open spec fn next_state(state: OrderState, trigger: OrderTransition) -> Option<OrderState> {
    match (state, trigger) {
        (OrderState::Idle, OrderTransition::Submit) => Some(OrderState::Submitted),
        (OrderState::Submitted, OrderTransition::Confirm) => Some(OrderState::Confirmed),
        (OrderState::Submitted, OrderTransition::Reject) => Some(OrderState::Rejected),
        (OrderState::Submitted, OrderTransition::Timeout) => Some(OrderState::Uncertain),
        (OrderState::Confirmed, OrderTransition::PartiallyFill) => Some(OrderState::PartialFill),
        (OrderState::Confirmed, OrderTransition::Fill) => Some(OrderState::Filled),
        (OrderState::PartialFill, OrderTransition::PartiallyFill) => Some(OrderState::PartialFill),
        (OrderState::PartialFill, OrderTransition::Fill) => Some(OrderState::Filled),
        (OrderState::PartialFill, OrderTransition::Reject) => Some(OrderState::Rejected),
        (OrderState::Uncertain, OrderTransition::BeginRecon) => Some(OrderState::PendingRecon),
        (OrderState::PendingRecon, OrderTransition::Resolve) => Some(OrderState::Resolved),
        _ => None,
    }
}

/// The state after the trigger, or the refusal.
pub open spec fn transition_result(state: OrderState, trigger: OrderTransition) -> Result<
    OrderState,
    InvalidTransition,
> {
    match next_state(state, trigger) {
        Some(to) => Ok(to),
        None => Err(InvalidTransition { from: state, trigger }),
    }
}

/// Looks up the arc that `trigger` takes out of `state`.
///
/// Each state lists every trigger, so that a new one cannot be overlooked.
pub fn try_transition(state: OrderState, trigger: OrderTransition) -> (r: Result<
    OrderState,
    InvalidTransition,
>)
    ensures
        r == transition_result(state, trigger),
{
    let invalid: Result<OrderState, InvalidTransition> = Err(
        InvalidTransition { from: state, trigger },
    );
    match state {
        OrderState::Idle => match trigger {
            OrderTransition::Submit => Ok(OrderState::Submitted),
            OrderTransition::Confirm
            | OrderTransition::PartiallyFill
            | OrderTransition::Fill
            | OrderTransition::Reject
            | OrderTransition::Timeout
            | OrderTransition::BeginRecon
            | OrderTransition::Resolve => invalid,
        },
        OrderState::Submitted => match trigger {
            OrderTransition::Confirm => Ok(OrderState::Confirmed),
            OrderTransition::Reject => Ok(OrderState::Rejected),
            OrderTransition::Timeout => Ok(OrderState::Uncertain),
            OrderTransition::Submit
            | OrderTransition::PartiallyFill
            | OrderTransition::Fill
            | OrderTransition::BeginRecon
            | OrderTransition::Resolve => invalid,
        },
        OrderState::Confirmed => match trigger {
            OrderTransition::PartiallyFill => Ok(OrderState::PartialFill),
            OrderTransition::Fill => Ok(OrderState::Filled),
            OrderTransition::Submit
            | OrderTransition::Confirm
            | OrderTransition::Reject
            | OrderTransition::Timeout
            | OrderTransition::BeginRecon
            | OrderTransition::Resolve => invalid,
        },
        OrderState::PartialFill => match trigger {
            OrderTransition::PartiallyFill => Ok(OrderState::PartialFill),
            OrderTransition::Fill => Ok(OrderState::Filled),
            OrderTransition::Reject => Ok(OrderState::Rejected),
            OrderTransition::Submit
            | OrderTransition::Confirm
            | OrderTransition::Timeout
            | OrderTransition::BeginRecon
            | OrderTransition::Resolve => invalid,
        },
        OrderState::Uncertain => match trigger {
            OrderTransition::BeginRecon => Ok(OrderState::PendingRecon),
            OrderTransition::Submit
            | OrderTransition::Confirm
            | OrderTransition::PartiallyFill
            | OrderTransition::Fill
            | OrderTransition::Reject
            | OrderTransition::Timeout
            | OrderTransition::Resolve => invalid,
        },
        OrderState::PendingRecon => match trigger {
            OrderTransition::Resolve => Ok(OrderState::Resolved),
            OrderTransition::Submit
            | OrderTransition::Confirm
            | OrderTransition::PartiallyFill
            | OrderTransition::Fill
            | OrderTransition::Reject
            | OrderTransition::Timeout
            | OrderTransition::BeginRecon => invalid,
        },
        OrderState::Filled
        | OrderState::Rejected
        | OrderState::Cancelled
        | OrderState::Resolved
        | OrderState::PendingCancel => match trigger {
            OrderTransition::Submit
            | OrderTransition::Confirm
            | OrderTransition::PartiallyFill
            | OrderTransition::Fill
            | OrderTransition::Reject
            | OrderTransition::Timeout
            | OrderTransition::BeginRecon
            | OrderTransition::Resolve => invalid,
        },
    }
}

/// Whether some trigger leads from one state to the other.
pub open spec fn reaches(from: OrderState, to: OrderState) -> bool {
    exists|trigger: OrderTransition| next_state(from, trigger) == Some(to)
}

/// Whether some trigger leads from one state to the other.
pub fn can_transition_to(from: OrderState, to: OrderState) -> (r: bool)
    ensures
        r == reaches(from, to),
{
    let trigger = match to {
        OrderState::Submitted => OrderTransition::Submit,
        OrderState::Confirmed => OrderTransition::Confirm,
        OrderState::PartialFill => OrderTransition::PartiallyFill,
        OrderState::Filled => OrderTransition::Fill,
        OrderState::Rejected => OrderTransition::Reject,
        OrderState::Uncertain => OrderTransition::Timeout,
        OrderState::PendingRecon => OrderTransition::BeginRecon,
        OrderState::Resolved => OrderTransition::Resolve,
        OrderState::Idle | OrderState::Cancelled | OrderState::PendingCancel => {
            return false;
        },
    };
    match try_transition(from, trigger) {
        Ok(reached) => reached == to,
        Err(_) => false,
    }
}

/// The state machine of one order.
#[derive(Debug, Clone, Copy, PartialEq, Eq, Structural)]
pub struct OrderStateMachine {
    pub state: OrderState,
    pub order_id: u64,
    pub decision_id: u64,
    /// When the order was submitted.
    pub submitted_at: Option<UnixNanos>,
    /// Whether refusals are passed on to a circuit breaker.
    pub breaker_armed: bool,
}

impl OrderStateMachine {
    /// A machine for an order that has not been submitted.
    pub fn new(order_id: u64, decision_id: u64) -> (r: Self)
        ensures
            r == (OrderStateMachine {
                state: OrderState::Idle,
                order_id,
                decision_id,
                submitted_at: None,
                breaker_armed: false,
            }),
    {
        OrderStateMachine {
            state: OrderState::Idle,
            order_id,
            decision_id,
            submitted_at: None,
            breaker_armed: false,
        }
    }

    /// The same machine, started in another state.
    pub fn with_state(self, state: OrderState) -> (r: Self)
        ensures
            r == (OrderStateMachine { state, ..self }),
    {
        OrderStateMachine { state, ..self }
    }

    /// The same machine, with its refusals passed on.
    pub fn with_circuit_breaker(self) -> (r: Self)
        ensures
            r == (OrderStateMachine { breaker_armed: true, ..self }),
    {
        OrderStateMachine { breaker_armed: true, ..self }
    }

    pub fn state(&self) -> (r: OrderState)
        ensures
            r == self.state,
    {
        self.state
    }

    pub fn order_id(&self) -> (r: u64)
        ensures
            r == self.order_id,
    {
        self.order_id
    }

    pub fn decision_id(&self) -> (r: u64)
        ensures
            r == self.decision_id,
    {
        self.decision_id
    }

    pub fn submitted_at(&self) -> (r: Option<UnixNanos>)
        ensures
            r == self.submitted_at,
    {
        self.submitted_at
    }

    pub fn is_terminal(&self) -> (r: bool)
        ensures
            r == self.state.terminal(),
    {
        self.state.is_terminal()
    }

    /// The machine after a trigger; unchanged where the trigger is refused.
    pub open spec fn after(self, trigger: OrderTransition, now: UnixNanos) -> OrderStateMachine {
        match next_state(self.state, trigger) {
            Some(to) => OrderStateMachine {
                state: to,
                submitted_at: if to is Submitted {
                    Some(now)
                } else {
                    self.submitted_at
                },
                ..self
            },
            None => self,
        }
    }

    /// What reaches the circuit breaker when the trigger is applied.
    pub open spec fn trips_of(self, trigger: OrderTransition) -> Seq<InvalidTransition> {
        if self.breaker_armed && next_state(self.state, trigger) is None {
            seq![InvalidTransition { from: self.state, trigger }]
        } else {
            Seq::empty()
        }
    }

    /// Applies a trigger. A refusal leaves the machine as it is and, where the
    /// machine has a breaker, is appended to `trips` for the breaker to see.
    pub fn transition(
        &mut self,
        trigger: OrderTransition,
        now: UnixNanos,
        trips: &mut Vec<InvalidTransition>,
    ) -> (r: Result<OrderState, InvalidTransition>)
        ensures
            r == transition_result(old(self).state, trigger),
            *final(self) == old(self).after(trigger, now),
            final(trips)@ == old(trips)@ + old(self).trips_of(trigger),
    {
        match try_transition(self.state, trigger) {
            Ok(to) => {
                self.state = to;
                if to == OrderState::Submitted {
                    self.submitted_at = Some(now);
                }
                assert(trips@ =~= old(trips)@ + old(self).trips_of(trigger));
                Ok(to)
            },
            Err(refused) => {
                if self.breaker_armed {
                    trips.push(refused);
                }
                assert(trips@ =~= old(trips)@ + old(self).trips_of(trigger));
                Err(refused)
            },
        }
    }
}

/// No trigger moves an order out of a terminal state.
pub proof fn terminal_states_absorb(state: OrderState, trigger: OrderTransition)
    requires
        state.terminal(),
    ensures
        transition_result(state, trigger) == Err::<OrderState, InvalidTransition>(
            InvalidTransition { from: state, trigger },
        ),
{
}

/// A trigger leads to one state, whatever state it is applied in.
pub proof fn trigger_fixes_target(a: OrderState, b: OrderState, trigger: OrderTransition)
    requires
        next_state(a, trigger) is Some,
        next_state(b, trigger) is Some,
    ensures
        next_state(a, trigger) == next_state(b, trigger),
{
}

/// An order is submitted at most once: no arc leads back to `Submitted` or
/// `Idle` from any other state than `Idle`.
pub proof fn submitted_only_from_idle(state: OrderState, trigger: OrderTransition)
    ensures
        next_state(state, trigger) != Some(OrderState::Idle),
        next_state(state, trigger) == Some(OrderState::Submitted) ==> state is Idle,
{
}

/// The submission time is set by the submission and never changes afterwards.
pub proof fn submission_time_is_kept(
    machine: OrderStateMachine,
    trigger: OrderTransition,
    now: UnixNanos,
)
    ensures
        machine.state is Idle && trigger is Submit ==> machine.after(trigger, now).submitted_at
            == Some(now),
        !(machine.state is Idle) ==> machine.after(trigger, now).submitted_at
            == machine.submitted_at,
{
}

/// Where each trigger is taken, and where it leads.
pub proof fn every_trigger_has_its_place(state: OrderState, trigger: OrderTransition)
    ensures
        trigger == OrderTransition::Submit ==> (next_state(state, trigger) is Some <==> state
            == OrderState::Idle),
        trigger == OrderTransition::Confirm || trigger == OrderTransition::Timeout ==> (next_state(
            state,
            trigger,
        ) is Some <==> state == OrderState::Submitted),
        trigger == OrderTransition::Reject ==> (next_state(state, trigger) is Some <==> state
            == OrderState::Submitted || state == OrderState::PartialFill),
        trigger == OrderTransition::PartiallyFill || trigger == OrderTransition::Fill ==> (
        next_state(state, trigger) is Some <==> state == OrderState::Confirmed || state
            == OrderState::PartialFill),
        trigger == OrderTransition::BeginRecon ==> (next_state(state, trigger) is Some <==> state
            == OrderState::Uncertain),
        trigger == OrderTransition::Resolve ==> (next_state(state, trigger) is Some <==> state
            == OrderState::PendingRecon),
        forall|to: OrderState| #[trigger]
            next_state(state, trigger) == Some(to) ==> {
                &&& trigger == OrderTransition::Submit <==> to == OrderState::Submitted
                &&& trigger == OrderTransition::Confirm <==> to == OrderState::Confirmed
                &&& trigger == OrderTransition::Reject <==> to == OrderState::Rejected
                &&& trigger == OrderTransition::Timeout <==> to == OrderState::Uncertain
                &&& trigger == OrderTransition::PartiallyFill <==> to == OrderState::PartialFill
                &&& trigger == OrderTransition::Fill <==> to == OrderState::Filled
                &&& trigger == OrderTransition::BeginRecon <==> to == OrderState::PendingRecon
                &&& trigger == OrderTransition::Resolve <==> to == OrderState::Resolved
            },
{
}

/// A trigger is answered with the state that it leads to, or with the state and the
/// trigger that did not go together; the machine follows the answer and keeps its
/// order, its decision and its breaker. Only a refusal reaches the breaker, and only
/// where there is one.
pub proof fn machines_follow_their_answers(
    machine: OrderStateMachine,
    trigger: OrderTransition,
    now: UnixNanos,
)
    ensures
        ({
            let answer = transition_result(machine.state, trigger);
            let after = machine.after(trigger, now);
            let trips = machine.trips_of(trigger);
            &&& after.order_id == machine.order_id
            &&& after.decision_id == machine.decision_id
            &&& after.breaker_armed == machine.breaker_armed
            &&& answer matches Ok(to) ==> after.state == to && trips.len() == 0 && next_state(
                machine.state,
                trigger,
            ) == Some(to)
            &&& answer matches Err(refusal) ==> {
                &&& refusal.from == machine.state
                &&& refusal.trigger == trigger
                &&& after == machine
                &&& next_state(machine.state, trigger) is None
                &&& machine.breaker_armed ==> trips.len() == 1 && trips[0] == refusal
                &&& !machine.breaker_armed ==> trips.len() == 0
            }
            &&& trigger != OrderTransition::Submit ==> after.submitted_at == machine.submitted_at
        }),
{
}

/// One step leads from one state to the other exactly along the arcs: from new to
/// submitted, from there to confirmed, rejected or uncertain, from confirmed into
/// filling and filled, from filling on or into a rejection, and from uncertain over
/// the asking to resolved.
pub proof fn one_step_reaches(from: OrderState, to: OrderState)
    ensures
        reaches(from, to) ==> !from.terminal(),
        from == OrderState::Idle ==> (reaches(from, to) <==> to == OrderState::Submitted),
        from == OrderState::Submitted ==> (reaches(from, to) <==> to == OrderState::Confirmed || to
            == OrderState::Rejected || to == OrderState::Uncertain),
        from == OrderState::Confirmed ==> (reaches(from, to) <==> to == OrderState::PartialFill
            || to == OrderState::Filled),
        from == OrderState::PartialFill ==> (reaches(from, to) <==> to == OrderState::PartialFill
            || to == OrderState::Filled || to == OrderState::Rejected),
        from == OrderState::Uncertain ==> (reaches(from, to) <==> to == OrderState::PendingRecon),
        from == OrderState::PendingRecon ==> (reaches(from, to) <==> to == OrderState::Resolved),
        from == OrderState::PendingCancel ==> !reaches(from, to),
{
    assert(next_state(OrderState::Idle, OrderTransition::Submit) is Some);
    assert(next_state(OrderState::Submitted, OrderTransition::Confirm) is Some);
    assert(next_state(OrderState::Submitted, OrderTransition::Reject) is Some);
    assert(next_state(OrderState::Submitted, OrderTransition::Timeout) is Some);
    assert(next_state(OrderState::Confirmed, OrderTransition::PartiallyFill) is Some);
    assert(next_state(OrderState::Confirmed, OrderTransition::Fill) is Some);
    assert(next_state(OrderState::PartialFill, OrderTransition::PartiallyFill) is Some);
    assert(next_state(OrderState::PartialFill, OrderTransition::Fill) is Some);
    assert(next_state(OrderState::PartialFill, OrderTransition::Reject) is Some);
    assert(next_state(OrderState::Uncertain, OrderTransition::BeginRecon) is Some);
    assert(next_state(OrderState::PendingRecon, OrderTransition::Resolve) is Some);
}

/// The names in which triggers are reported: no two share one.
pub proof fn triggers_are_told_apart(trigger: OrderTransition, other: OrderTransition)
    ensures
        trigger.name() == other.name() ==> trigger == other,
        OrderTransition::Submit.name() == "Submit"@,
        OrderTransition::Confirm.name() == "Confirm"@,
        OrderTransition::PartiallyFill.name() == "PartiallyFill"@,
        OrderTransition::Fill.name() == "Fill"@,
        OrderTransition::Reject.name() == "Reject"@,
        OrderTransition::Timeout.name() == "Timeout"@,
        OrderTransition::BeginRecon.name() == "BeginRecon"@,
        OrderTransition::Resolve.name() == "Resolve"@,
{
    reveal_strlit("Submit");
    reveal_strlit("Confirm");
    reveal_strlit("PartiallyFill");
    reveal_strlit("Fill");
    reveal_strlit("Reject");
    reveal_strlit("Timeout");
    reveal_strlit("BeginRecon");
    reveal_strlit("Resolve");
    assert("Submit"@[0] == 'S');
    assert("Confirm"@[0] == 'C');
    assert("PartiallyFill"@[0] == 'P');
    assert("Fill"@[0] == 'F');
    assert("Reject"@[0] == 'R' && "Reject"@[2] == 'j');
    assert("Timeout"@[0] == 'T');
    assert("BeginRecon"@[0] == 'B');
    assert("Resolve"@[0] == 'R' && "Resolve"@[2] == 's');
}

} // verus!
