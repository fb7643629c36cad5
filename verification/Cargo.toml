[package]
name = "pegboard_runner_ws"
version = "0.1.0"
edition = "2021"
publish = false

[dependencies]
url = "2"
tokio = { version = "1", features = ["rt-multi-thread", "net", "time", "sync", "macros"] }
tokio-tungstenite = "0.26"
futures-util = "0.3"
anyhow = "1"
