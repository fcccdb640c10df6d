[package]
name = "usb_passthrough"
version = "0.1.0"
edition = "2021"
publish = false

[dependencies]
anyhow = "1"
env_logger = "0.11"
log = "0.4"
rusb = { version = "0.9", features = ["vendored"] }
tokio = { version = "1", features = ["rt-multi-thread", "net", "io-util", "macros"] }
