//! Verified core of a futures trading engine.
pub mod arith;
pub mod buffer_monitor;
pub mod connection;
pub mod data;
pub mod data_quality;
pub mod event_loop;
pub mod keys;
pub mod order_book;
pub mod order_manager;
pub mod pairing;
pub mod paper;
pub mod persistence;
pub mod queue;
pub mod regime;
pub mod replay;
pub mod text;
pub mod types;
