[package]
name = "mixtex"
version = "0.1.0"
edition = "2021"
publish = false

[dependencies]
image = "0.24"
tokenizers = "*"
anyhow = "1"
ndarray = "0.15"
ort = "=2.0.0-rc.13"
axum = { version = "0.7", features = ["multipart"] }
futures = "0.3"
tokio = { version = "1", features = ["rt-multi-thread", "macros", "sync", "net"] }
tokio-stream = "0.1"
tower-http = { version = "0.5", features = ["cors"] }
