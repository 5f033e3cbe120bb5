[package]
name = "codex-for-grok"
version = "0.1.2"
edition = "2021"
publish = false

[dependencies]
async-stream = "0.3"
axum = "0.8"
base64 = "0.22"
clap = { version = "4", features = ["derive"] }
fs2 = "0.4"
futures-util = "0.3"
reqwest = { version = "0.12", default-features = false, features = ["http2", "json", "rustls-tls", "stream"] }
serde = { version = "1", features = ["derive"] }
serde_json = "1"
sha2 = "0.10"
thiserror = "2"
tokio = { version = "1", features = ["full"] }
tokio-util = "0.7"
toml = "0.9"
tracing = "0.1"
uuid = { version = "1", features = ["v4"] }
