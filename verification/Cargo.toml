[package]
name = "scop"
version = "0.1.0"
edition = "2021"
publish = false

[dependencies]
anyhow = "1"
log = "0.4"
png = "0.17"
pretty_env_logger = "0.5"
thiserror = "1"
vulkanalia = { version = "0.28", features = ["libloading", "provisional", "window"] }
winit = "0.29"
