//! Paper trading: live market data, simulated fills.
pub mod data_feed;
pub mod orchestrator;
