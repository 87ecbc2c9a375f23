[package]
name = "drawbridge_boot"
version = "0.1.0"
edition = "2021"
publish = false

[dependencies]
anyhow = "1"
async-std = { version = "1", features = ["attributes"] }
clap = { version = "4", features = ["derive", "string"] }
env_logger = "*"
futures = "0.3"
log = "0.4"
