[package]
name = "mcast_bridge"
version = "0.1.0"
edition = "2021"
publish = false

[dependencies]
async-nats = "*"
config = "*"
futures = "*"
gumdrop = "*"
miette = "*"
netdev = "*"
serde = { version = "*", features = ["derive"] }
tokio = { version = "*", features = ["rt-multi-thread", "net", "signal", "macros", "sync", "time"] }
tokio-util = "*"
tracing = "*"
tracing-subscriber = { version = "*", features = ["env-filter"] }
