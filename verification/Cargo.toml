[package]
name = "iot_firmata_bridge"
version = "0.1.0"
edition = "2021"
publish = false

[dependencies]
tokio = { version = "1", features = ["full"] }
log = "0.4"
env_logger = "*"
parking_lot = "0.12"
rppal = "*"
