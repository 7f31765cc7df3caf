[package]
name = "futures_bmad_engine"
version = "0.1.0"
edition = "2021"
publish = false

[dependencies]
arrow = { version = "*", default-features = false }
chrono = { version = "0.4", default-features = false, features = ["std", "clock"] }
clap = { version = "4", features = ["derive"] }
core_affinity = "0.8"
crossbeam-channel = "0.5"
parquet = { version = "*", default-features = false, features = ["arrow", "snap"] }
rusqlite = { version = "*", features = ["bundled"] }
serde = { version = "1", features = ["derive"] }
thiserror = "2"
tokio = { version = "1", features = ["sync", "rt", "macros", "rt-multi-thread", "signal", "time"] }
tracing = "0.1"
