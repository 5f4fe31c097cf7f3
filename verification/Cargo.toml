[package]
name = "breez"
version = "0.1.0"
edition = "2021"
publish = false

[dependencies]
ffmpeg-sidecar = "*"
serde = { version = "*", features = ["derive"] }
serde_json = "*"
thiserror = "*"
log = "*"
env_logger = "*"
crossbeam-channel = "*"
pinray = "*"
