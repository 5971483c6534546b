[package]
name = "nats3"
version = "0.1.0"
edition = "2021"
publish = false

[dependencies]
anyhow = "=1.0.104"
figment = { version = "=0.10.19", features = ["toml", "yaml", "env"] }
rust-s3 = "=0.34.0"
serde = { version = "=1.0.229", features = ["derive"] }
sha2 = "=0.10.9"
tokio = { version = "=1.54.1", features = ["time"] }
tracing = "=0.1.44"
tracing-subscriber = "=0.3.23"
