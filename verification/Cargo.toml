[package]
name = "nodus_executor"
version = "0.1.0"
edition = "2021"
publish = false

[dependencies]
chrono = "=0.4.45"
regex = "=1.13.1"
serde_json = "=1.0.154"
sqlparser = "=0.63.0"
uuid = "=1.29.0"
