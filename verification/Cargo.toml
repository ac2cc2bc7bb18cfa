[package]
name = "corro_pubsub"
version = "0.1.0"
edition = "2021"
publish = false

[dependencies]
compact_str = "=0.10.0"
fallible-iterator = "*"
indexmap = "=2.14.2"
parking_lot = "=0.12.5"
rusqlite = "=0.40.2"
serde = { version = "=1.0.229", features = ["derive"] }
speedy = "=0.8.7"
sqlite3-parser = "=0.9.0"
thiserror = "=1.0.69"
tokio = { version = "=1.54.1", features = ["sync", "rt", "rt-multi-thread", "macros"] }
tokio-util = "=0.7.20"
tracing = "=0.1.44"
uhlc = "=0.9.0"
uuid = { version = "=1.29.0", features = ["v4"] }
