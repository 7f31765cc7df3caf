//! The state of the broker connection.
//!
//! Every transition is reported to the circuit breakers; only the transition to
//! `CircuitBreak` trips the connection-failure breaker.
use vstd::prelude::*;

use crate::types::UnixNanos;

verus! {

/// State of the broker connection.
#[derive(Debug, Clone, Copy, PartialEq, Eq, Structural)]
pub enum ConnectionState {
    Connected,
    Reconnecting,
    Reconciling,
    CircuitBreak,
}

/// A refused transition. At present every transition is accepted.
#[derive(Debug, Clone, Copy, PartialEq, Eq, Structural)]
pub enum TransitionError {
    Illegal,
}

/// What the circuit breakers are told of a transition.
#[derive(Debug, Clone, Copy, PartialEq, Eq, Structural)]
pub struct ConnectionChange {
    pub state: ConnectionState,
    pub timestamp: UnixNanos,
    /// Whether the connection-failure breaker trips.
    pub trips_breaker: bool,
}

/// Follows the broker connection.
pub struct ConnectionFsm {
    state: ConnectionState,
}

impl View for ConnectionFsm {
    type V = ConnectionState;

    closed spec fn view(&self) -> ConnectionState {
        self.state
    }
}

impl Default for ConnectionFsm {
    fn default() -> (r: Self)
        ensures
            r@ == ConnectionState::Connected,
    {
        ConnectionFsm::new()
    }
}

impl ConnectionFsm {
    pub fn new() -> (r: Self)
        ensures
            r@ == ConnectionState::Connected,
    {
        ConnectionFsm { state: ConnectionState::Connected }
    }

    pub fn state(&self) -> (r: ConnectionState)
        ensures
            r == self@,
    {
        self.state
    }

    /// Moves to a new state and says what the circuit breakers have to be told.
    pub fn transition(&mut self, new_state: ConnectionState, timestamp: UnixNanos) -> (r:
        ConnectionChange)
        ensures
            final(self)@ == new_state,
            r == (ConnectionChange {
                state: new_state,
                timestamp,
                trips_breaker: new_state is CircuitBreak,
            }),
    {
        self.state = new_state;
        ConnectionChange {
            state: new_state,
            timestamp,
            trips_breaker: new_state == ConnectionState::CircuitBreak,
        }
    }
}

} // verus!
