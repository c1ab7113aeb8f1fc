[package]
name = "agentkit"
version = "0.1.0"
edition = "2021"
publish = false

[dependencies]
regex = "=1.13.1"
serde = { version = "=1.0.229", features = ["derive"] }
serde_json = "=1.0.154"
flate2 = "=1.1.10"
brotli = "=7.0.0"
zstd = "=0.13.4"
quick-xml = "=0.36.2"
chrono = { version = "=0.4.45", default-features = false, features = ["std", "clock"] }
tokio = { version = "1", features = ["full"] }
axum = "0.7"
reqwest = { version = "0.12", default-features = false, features = ["stream"] }
futures = "0.3"
bytes = "1"
clap = { version = "4", features = ["derive"] }
