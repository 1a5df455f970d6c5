[package]
name = "solink_tracing_flat_json"
version = "0.1.0"
edition = "2021"
publish = false

[dependencies]
chrono = "*"
serde_json = { version = "*", features = ["preserve_order"] }
tracing = "*"
tracing-subscriber = "*"
