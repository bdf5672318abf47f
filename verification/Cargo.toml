[package]
name = "cowi"
version = "0.1.0"
edition = "2021"
publish = false

[dependencies]
anyhow = "1"
clap = { version = "3.2", features = ["derive"] }
env_logger = "0.9"
log = "0.4"
