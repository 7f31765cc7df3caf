//! Replaying recorded market data.
pub mod bars;
pub mod data_source;
pub mod determinism;
pub mod driver;
pub mod fill_sim;
pub mod orchestrator;
pub mod pipes;
pub mod recordings;
pub mod stats;
