[package]
name = "rtcv_bridge"
version = "0.1.0"
edition = "2021"
publish = false

[dependencies]
sha2 = "*"
serde = "*"
serde_json = "*"
surf = "*"
async-std = { version = "*", features = ["attributes"] }
http-types = "*"
