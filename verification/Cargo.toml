[package]
name = "mojentic"
version = "0.1.0"
edition = "2021"
publish = false

[dependencies]
tiktoken-rs = "=0.12.1"
base64 = "=0.22.1"
urlencoding = "=2.1.3"
serde = { version = "=1.0.229", features = ["derive"] }
serde_json = "=1.0.154"
chrono = "=0.4.45"
regex = "=1.13.1"
glob = "=0.3.4"
reqwest = { version = "0.12", default-features = false, features = ["json", "stream"] }
tokio = { version = "1", features = ["rt-multi-thread", "macros", "sync", "time"] }
futures = "0.3"
async-trait = "0.1"
async-stream = "0.3"
uuid = { version = "1", features = ["v4"] }
tokio-tungstenite = "0.24"
tokio-util = "0.7"
scraper = "0.20"
thiserror = "1"
tracing = "0.1"
percent-encoding = "2"
schemars = "0.8"
