//! Durable records: the event journal, its queries and the market data files.
pub mod calendar;
pub mod journal;
pub mod parquet_writer;
pub mod query;
