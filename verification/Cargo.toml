[package]
name = "turn-control"
version = "0.1.0"
edition = "2021"
publish = false

[dependencies]
indexmap = "2"
serde_json = "1"
uuid = { version = "1", features = ["v4"] }
tokio = { version = "1", features = ["rt", "sync"] }
tokio-util = { version = "0.7", features = ["rt"] }
tracing = "0.1"
rmcp = { version = "*", default-features = false }
