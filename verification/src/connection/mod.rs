//! The life cycle of the broker connection.
pub mod fsm;
