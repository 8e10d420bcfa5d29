[package]
name = "grok2api"
version = "0.1.0"
edition = "2021"
publish = false

[dependencies]
async-stream = "=0.3.6"
axum = { version = "=0.7.9", features = ["ws"] }
bytes = "=1.12.1"
chrono = "=0.4.45"
futures = "=0.3.34"
once_cell = "=1.21.4"
rand = "=0.8.8"
reqwest = { version = "=0.12.28", default-features = false, features = ["rustls-tls"] }
serde = { version = "=1.0.229", features = ["derive"] }
serde_json = "=1.0.154"
tokio = { version = "=1.54.1", features = ["full"] }
tokio-util = "=0.7.20"
tracing = "=0.1.44"
url = "=2.5.8"
uuid = { version = "=1.29.0", features = ["v4"] }
