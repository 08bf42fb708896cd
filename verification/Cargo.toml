[package]
name = "turbo_desktop"
version = "0.1.0"
edition = "2021"
publish = false

[dependencies]
url = "2"
regex-lite = "0.1"
tokio = { version = "1", default-features = false, features = ["sync", "process", "io-util", "fs", "time", "rt", "macros"] }
serde = { version = "1", features = ["derive"] }
serde_json = "1"
log = "0.4"
env_logger = "0.11"
reqwest = { version = "0.12", default-features = false, features = ["json", "rustls-tls"] }
