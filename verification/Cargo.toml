[package]
name = "vehicle_shadow"
version = "0.1.0"
edition = "2021"
publish = false

[dependencies]
sled = "*"
tokio = { version = "1", features = ["sync", "rt-multi-thread", "macros", "signal"] }
serde_json = "1"
clap = { version = "4", features = ["derive"] }
env_logger = "*"
log = "*"
