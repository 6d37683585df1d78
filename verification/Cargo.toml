[package]
name = "simx"
version = "0.1.0"
edition = "2021"
publish = false

[dependencies]
rand = "0.8"
chrono = "0.4"
serde = { version = "1", features = ["derive"] }
serde_json = "1"
tokio = { version = "1", features = ["rt-multi-thread", "macros", "net", "io-util", "sync", "time", "fs", "signal"] }
axum = { version = "0.7", features = ["ws", "multipart"] }
futures-util = "0.3"
parking_lot = "0.12"
ureq = "2"
