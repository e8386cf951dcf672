[package]
name = "relay_core"
version = "0.1.0"
edition = "2021"
publish = false

[dependencies]
tokio = { version = "1", default-features = false, features = ["sync", "rt-multi-thread", "time"] }
rand = "0.8"
redis = "*"
zmq = "0.10"
tokio-modbus = "*"
