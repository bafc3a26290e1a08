[package]
name = "jarvis_core"
version = "0.1.0"
edition = "2021"
publish = false

[dependencies]
webrtc-vad = "*"
nnnoiseless = "*"
serde = { version = "1", features = ["derive"] }
serde_json = "1"
reqwest = { version = "0.12", default-features = false, features = ["blocking", "json"] }
thiserror = "2"
once_cell = "1"
parking_lot = "0.12"
tokio = { version = "1", features = ["rt-multi-thread", "sync", "macros"] }
simple-log = "*"
intent-classifier = "*"
