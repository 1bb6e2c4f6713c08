[package]
name = "conveyor"
version = "0.1.0"
edition = "2021"
publish = false

[dependencies]
anyhow = "*"
dialoguer = "*"
env_logger = "*"
futures = "*"
log = "*"
rand = "*"
statrs = "*"
tokio = { version = "*", features = ["macros", "rt-multi-thread", "sync", "time"] }
