[package]
name = "tracing_chrometrace"
version = "0.1.0"
edition = "2021"
publish = false

[dependencies]
crossbeam = "0.8"
serde = { version = "1", features = ["derive"] }
serde_json = "1"
tracing = "0.1"
tracing-subscriber = "0.3"
