[package]
name = "ws_relay"
version = "0.1.0"
edition = "2021"
publish = false

[dependencies]
serde_json = "1"
uuid = "1"
tokio = { version = "1", features = ["sync", "rt", "rt-multi-thread", "net"] }
tokio-tungstenite = "0.24"
futures-util = "0.3"
chrono = "0.4"
