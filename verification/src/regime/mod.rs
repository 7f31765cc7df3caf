//! Market regimes: their detection, and which strategies may trade in them.
pub mod orchestrator;
pub mod threshold;
