[package]
name = "pezmax"
version = "0.1.0"
edition = "2021"
publish = false

[dependencies]
base64 = "=0.22.1"
semver = "=1.0.28"
machine-uid = "=0.6.0"
hostname = "=0.4.2"
serde = { version = "=1.0.229", features = ["derive"] }
serde_json = "=1.0.154"
dirs = "=7.0.0"
anyhow = "=1.0.104"
log = "=0.4.35"
env_logger = "=0.11.11"
tokio = { version = "=1.54.1", features = ["rt-multi-thread", "fs", "io-util", "sync", "time"] }
reqwest = { version = "=0.12.28", default-features = false, features = ["json", "rustls-tls", "multipart"] }
rusqlite = { version = "=0.41.1", features = ["bundled"] }
zbus = { version = "5", default-features = false, features = ["tokio"] }
