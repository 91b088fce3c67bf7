[package]
name = "fungi_daemon"
version = "0.1.0"
edition = "2021"
publish = false

[dependencies]
serde = { version = "=1.0.229", features = ["derive"] }
serde_json = "=1.0.154"
serde_yaml = "=0.9.34"
ulid = "=1.2.1"
anyhow = "=1.0.104"
clap = { version = "=4.6.7", features = ["derive"] }
chrono = "=0.4.45"
tempfile = "=3.27.0"
typed-path = "=0.13.0"
libp2p = { version = "*", default-features = false }
