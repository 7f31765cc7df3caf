use futures_bmad_engine::connection::fsm::{ConnectionFsm, ConnectionState};
use futures_bmad_engine::types::UnixNanos;

#[test]
fn fsm_starts_connected() {
    let fsm = ConnectionFsm::new();
    assert_eq!(fsm.state(), ConnectionState::Connected);
    assert_eq!(ConnectionFsm::default().state(), ConnectionState::Connected);
}

#[test]
fn benign_transitions_do_not_trip_breaker() {
    let mut fsm = ConnectionFsm::new();
    for (state, at) in [
        (ConnectionState::Reconnecting, 1),
        (ConnectionState::Reconciling, 2),
        (ConnectionState::Connected, 3),
    ] {
        let change = fsm.transition(state, UnixNanos::new(at));
        assert!(!change.trips_breaker);
        assert_eq!(change.timestamp, UnixNanos::new(at));
        assert_eq!(fsm.state(), state);
    }
}

#[test]
fn circuit_break_transition_trips_breaker() {
    let mut fsm = ConnectionFsm::new();
    let change = fsm.transition(ConnectionState::CircuitBreak, UnixNanos::new(42));
    assert!(change.trips_breaker);
    assert_eq!(change.state, ConnectionState::CircuitBreak);
    assert_eq!(change.timestamp, UnixNanos::new(42));
    assert_eq!(fsm.state(), ConnectionState::CircuitBreak);
}
