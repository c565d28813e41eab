[package]
name = "backtest_core"
version = "0.1.0"
edition = "2021"
publish = false

[dependencies]
queues = "*"
chrono = "*"
serde = { version = "*", features = ["derive"] }
serde_json = "*"
