[package]
name = "proto"
version = "0.1.0"
edition = "2021"
publish = false

[dependencies]
crc = "*"
anyhow = "*"
log = "*"
env_logger = "*"
tokio = { version = "*", features = ["full"] }
tokio-util = "*"
tokio-serial = "*"
