[package]
name = "homevoice"
version = "0.1.0"
edition = "2021"
publish = false

[dependencies]
rss = "*"
chrono = "*"
webrtc-vad = "*"
serde = { version = "*", features = ["derive"] }
serde_json = "*"
