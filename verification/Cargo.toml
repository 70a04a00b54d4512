[package]
name = "indexer_core"
version = "0.1.0"
edition = "2021"
publish = false

[dependencies]
anyhow = "=1.0.104"
async-std = "=1.13.2"
axum = { version = "=0.6.20", features = ["multipart"] }
clap = { version = "=3.2.25", features = ["derive"] }
http = "=0.2.12"
hyper = { version = "=0.14.32", features = ["client", "http1", "http2", "tcp"] }
hyper-rustls = { version = "=0.23.2", features = ["http2"] }
serde = { version = "=1.0.229", features = ["derive"] }
serde_json = "=1.0.154"
serde_yaml = "0.9"
sha2 = "=0.10.9"
tokio = { version = "=1.54.1", features = ["sync", "rt", "macros"] }
tracing = "=0.1.44"
