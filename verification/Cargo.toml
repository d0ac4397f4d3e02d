[package]
name = "acropolis_state"
version = "0.1.0"
edition = "2021"
publish = false

[dependencies]
hex = "0.4"
serde = { version = "1", features = ["derive"] }
serde_json = "1"
tokio = { version = "1", features = ["sync", "rt", "macros", "time"] }
anyhow = "1"
tracing = "0.1"
config = "*"
caryatid_sdk = "*"
