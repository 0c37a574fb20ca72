[package]
name = "neomacs"
version = "0.1.0"
edition = "2021"
publish = false

[dependencies]
anyhow = "1"
async-trait = "0.1"
atomic-counter = "1"
bytes = "1"
dirs = "*"
env_logger = "*"
futures = "0.3"
log = "0.4"
maplit = "1"
ordered-float = "*"
parking_lot = "0.12"
rmpv = "1"
ropey = "1"
thiserror = "*"
tokio = { version = "1", features = ["full"] }
tokio-util = { version = "0.7", features = ["codec"] }
