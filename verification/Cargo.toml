[package]
name = "streamctl"
version = "0.1.0"
edition = "2021"
publish = false

[dependencies]
anyhow = "1"
chrono = "0.4"
derive_more = "0.99"
env_logger = "0.10"
glib = "0.15"
gstreamer = "0.18"
gstreamer-rtsp-server = "0.18"
log = "0.4"
serde = { version = "1", features = ["derive"] }
serde_json = "1"
serde_yaml = "0.8"
state = "0.5"
