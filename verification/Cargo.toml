[package]
name = "phoxi_interface"
version = "0.1.0"
edition = "2021"
publish = false

[dependencies]
nanoid = "*"
serde_json = "*"
tokio = { version = "1", features = ["rt-multi-thread", "macros", "time", "sync"] }
redis = { version = "*", features = ["tokio-comp"] }
