[package]
name = "media_gate"
version = "0.1.0"
edition = "2021"
publish = false

[dependencies]
getrandom = "=0.4.3"
axum = "=0.8.9"
tokio = { version = "=1.54.1", features = ["full"] }
tracing = "=0.1.44"
tracing-subscriber = "=0.3.23"
serde = { version = "=1.0.229", features = ["derive"] }
