[package]
name = "volcano"
version = "0.1.0"
edition = "2021"
publish = false

[dependencies]
hyper = { version = "0.14", features = ["full"] }
tokio = { version = "1", features = ["full"] }
tokio-rustls = "0.23"
rustls = "0.20"
rustls-pemfile = "1"
tokio-tungstenite = "0.18"
tungstenite = "0.18"
futures = "0.3"
urlencoding = "2"
serde = { version = "1", features = ["derive"] }
serde_json = "1"
