use futures_bmad_engine::order_manager::state_machine::{
    can_transition_to, try_transition, InvalidTransition, OrderStateMachine, OrderTransition,
};
use futures_bmad_engine::types::{OrderState, UnixNanos};

fn now() -> UnixNanos {
    UnixNanos::new(1_700_000_000_000_000_000)
}

const STATES: [OrderState; 11] = [
    OrderState::Idle,
    OrderState::Submitted,
    OrderState::Confirmed,
    OrderState::PartialFill,
    OrderState::Filled,
    OrderState::Rejected,
    OrderState::Cancelled,
    OrderState::PendingCancel,
    OrderState::Uncertain,
    OrderState::PendingRecon,
    OrderState::Resolved,
];

const TRIGGERS: [OrderTransition; 8] = [
    OrderTransition::Submit,
    OrderTransition::Confirm,
    OrderTransition::PartiallyFill,
    OrderTransition::Fill,
    OrderTransition::Reject,
    OrderTransition::Timeout,
    OrderTransition::BeginRecon,
    OrderTransition::Resolve,
];

const ARCS: [(OrderState, OrderTransition, OrderState); 11] = [
    (OrderState::Idle, OrderTransition::Submit, OrderState::Submitted),
    (OrderState::Submitted, OrderTransition::Confirm, OrderState::Confirmed),
    (OrderState::Submitted, OrderTransition::Reject, OrderState::Rejected),
    (OrderState::Submitted, OrderTransition::Timeout, OrderState::Uncertain),
    (OrderState::Confirmed, OrderTransition::PartiallyFill, OrderState::PartialFill),
    (OrderState::Confirmed, OrderTransition::Fill, OrderState::Filled),
    (OrderState::PartialFill, OrderTransition::PartiallyFill, OrderState::PartialFill),
    (OrderState::PartialFill, OrderTransition::Fill, OrderState::Filled),
    (OrderState::PartialFill, OrderTransition::Reject, OrderState::Rejected),
    (OrderState::Uncertain, OrderTransition::BeginRecon, OrderState::PendingRecon),
    (OrderState::PendingRecon, OrderTransition::Resolve, OrderState::Resolved),
];

#[test]
fn valid_transitions_match_spec_graph() {
    for (from, trigger, to) in ARCS {
        let got = try_transition(from, trigger).unwrap();
        assert_eq!(got, to, "{:?} via {:?}", from, trigger);
    }
}

#[test]
fn every_invalid_transition_returns_error() {
    for s in STATES {
        for t in TRIGGERS {
            let result = try_transition(s, t);
            let valid = ARCS.iter().any(|(from, trigger, _)| *from == s && *trigger == t);
            if valid {
                assert!(result.is_ok(), "expected ok for {:?}/{:?}", s, t);
            } else {
                let err = result.unwrap_err();
                assert_eq!(err.from, s);
                assert_eq!(err.trigger, t);
            }
        }
    }
}

#[test]
fn invalid_transition_invokes_circuit_breaker() {
    let mut trips = Vec::new();
    let mut sm = OrderStateMachine::new(1, 11)
        .with_state(OrderState::Filled)
        .with_circuit_breaker();
    let result = sm.transition(OrderTransition::Confirm, now(), &mut trips);
    assert!(result.is_err());
    assert_eq!(trips.len(), 1);
    assert_eq!(
        trips[0],
        InvalidTransition { from: OrderState::Filled, trigger: OrderTransition::Confirm }
    );
}

#[test]
fn unarmed_machine_tells_nobody() {
    let mut trips = Vec::new();
    let mut sm = OrderStateMachine::new(1, 11).with_state(OrderState::Filled);
    assert!(sm.transition(OrderTransition::Confirm, now(), &mut trips).is_err());
    assert!(trips.is_empty());
    assert_eq!(sm.state(), OrderState::Filled);
    assert!(sm.is_terminal());
}

#[test]
fn submitted_at_recorded_on_submission() {
    let mut trips = Vec::new();
    let mut sm = OrderStateMachine::new(7, 77);
    assert!(sm.submitted_at().is_none());
    sm.transition(OrderTransition::Submit, UnixNanos::new(123_456), &mut trips).unwrap();
    assert_eq!(sm.submitted_at(), Some(UnixNanos::new(123_456)));
    sm.transition(OrderTransition::Confirm, UnixNanos::new(999_999), &mut trips).unwrap();
    assert_eq!(sm.submitted_at(), Some(UnixNanos::new(123_456)));
    assert_eq!((sm.order_id(), sm.decision_id()), (7, 77));
}

#[test]
fn successful_transition_updates_state_and_returns_new_state() {
    let mut trips = Vec::new();
    let mut sm = OrderStateMachine::new(1, 1);
    let new = sm.transition(OrderTransition::Submit, now(), &mut trips).unwrap();
    assert_eq!(new, OrderState::Submitted);
    assert_eq!(sm.state(), OrderState::Submitted);
}

#[test]
fn terminal_states_absorb_every_trigger() {
    for s in STATES {
        if s.is_terminal() {
            for t in TRIGGERS {
                assert!(try_transition(s, t).is_err());
            }
        }
    }
}

#[test]
fn reachability_follows_the_arcs() {
    for from in STATES {
        for to in STATES {
            let arc = ARCS.iter().any(|(a, _, b)| *a == from && *b == to);
            assert_eq!(can_transition_to(from, to), arc, "{:?} -> {:?}", from, to);
        }
    }
}

#[test]
fn refusals_are_described() {
    let refused =
        InvalidTransition { from: OrderState::Filled, trigger: OrderTransition::BeginRecon };
    assert_eq!(
        refused.describe(),
        "invalid order state transition: Filled via BeginRecon"
    );
}
