//! Recorded market data as a stream of events.
pub mod data_source;
pub mod multi_day_source;
pub mod parquet_source;
