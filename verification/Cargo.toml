[package]
name = "ach"
version = "0.1.0"
edition = "2021"
publish = false

[dependencies]
parking_lot = "0.12"
serde = { version = "1", features = ["derive"] }
tokio = { version = "1", features = ["sync", "rt", "rt-multi-thread", "macros", "time"] }
tracing = "0.1"
