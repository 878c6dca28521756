[package]
name = "powder"
version = "0.1.0"
edition = "2021"
publish = false

[dependencies]
rand = "0.8"
ggez = { version = "0.9", default-features = false }
glam = { version = "0.24", features = ["mint"] }
log = "0.4"
env_logger = "0.10"
anyhow = "1"
thiserror = "1"
strum = { version = "0.25", features = ["derive"] }
