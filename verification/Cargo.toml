[package]
name = "open2jam"
version = "0.1.0"
edition = "2021"
publish = false

[dependencies]
encoding_rs = "0.8"
quick-xml = "0.37"
thiserror = "1"
log = "0.4"
env_logger = "0.11"
anyhow = "1"
