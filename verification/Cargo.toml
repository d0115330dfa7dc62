[package]
name = "guardian"
version = "0.1.0"
edition = "2021"
publish = false

[dependencies]
async-stream = "*"
async-trait = "*"
parking_lot = "*"
redis = { version = "*", features = ["tokio-comp", "connection-manager", "cluster-async"] }
thiserror = "*"
tokio = { version = "1", features = ["rt-multi-thread", "macros", "time", "sync"] }
tokio-stream = "*"
tonic = "*"
