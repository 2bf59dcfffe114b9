[package]
name = "parallax"
version = "0.1.0"
edition = "2021"
publish = false

[dependencies]
anyhow = "=1.0.104"
base64 = "=0.22.1"
chrono = { version = "=0.4.45", default-features = false, features = ["clock", "std"] }
futures = "=0.3.34"
futures-util = "=0.3.34"
git2 = { version = "=0.19.0", default-features = false }
hex = "=0.4.3"
hmac = "=0.12.1"
md-5 = "=0.10.6"
percent-encoding = "=2.3.2"
regex = "=1.13.1"
reqwest = { version = "=0.12.28", default-features = false, features = ["json", "stream", "cookies", "gzip", "brotli", "rustls-tls", "http2"] }
serde = { version = "=1.0.229", features = ["derive"] }
serde_json = "=1.0.154"
serde_yaml = "=0.9.34"
sha2 = "=0.10.9"
tokio = { version = "=1.54.1", features = ["full"] }
tokio-tungstenite = "=0.24.0"
uuid = { version = "=1.29.0", features = ["v4"] }
walkdir = "=2.5.0"
