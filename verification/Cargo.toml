[package]
name = "handshake"
version = "0.1.0"
edition = "2021"
publish = false

[dependencies]
ciborium = "0.2"
figment = { version = "0.10", features = ["yaml"] }
serde = { version = "1", features = ["derive"] }
tokio = { version = "1", features = ["io-util", "macros", "net", "rt-multi-thread", "sync", "time"] }
tracing = "0.1"
tracing-subscriber = "0.3"
