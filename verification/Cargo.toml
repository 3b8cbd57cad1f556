[package]
name = "monitor_rust"
version = "0.1.0"
edition = "2021"
publish = false

[dependencies]
serde = { version = "1", features = ["derive"] }
serde_json = "1"
tokio = { version = "1", features = ["full"] }
tungstenite = "0.17"
url = "2"
hyper = { version = "0.14", features = ["full"] }
http = "0.2"
futures = "0.3"
