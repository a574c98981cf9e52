[package]
name = "lattice"
version = "0.1.0"
edition = "2021"
publish = false

[dependencies]
roaring = { version = "=0.12.0", features = ["serde"] }
serde = { version = "=1.0.229", features = ["derive"] }
serde_json = "=1.0.154"
anyhow = "=1.0.104"
candle-core = "=0.11.1"
reqwest = { version = "=0.12.28", default-features = false, features = ["json", "rustls-tls"] }
tokio = { version = "=1.54.1", features = ["full"] }
tokio-stream = "=0.1.19"
axum = "=0.7.9"
futures-util = "=0.3.34"
log = "=0.4.35"
env_logger = "=0.11.11"
dotenvy = "=0.15.7"
