[package]
name = "rustrtc"
version = "0.1.0"
edition = "2021"
publish = false

[dependencies]
base64 = "0.22"
rand = "*"
tokio = { version = "1", features = ["rt", "rt-multi-thread", "sync", "time", "net", "macros"] }
parking_lot = "*"
tracing = "*"
async-trait = "*"
futures = "*"
