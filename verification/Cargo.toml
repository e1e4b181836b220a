[package]
name = "simple_store"
version = "0.1.0"
edition = "2021"
publish = false

[dependencies]
aes-gcm-siv = "=0.11.1"
bytes = "=1.12.1"
clap = { version = "=4.6.7", features = ["derive"] }
config = "=0.13.4"
crypto-common = "=0.1.7"
env_logger = "=0.10.2"
log = "=0.4.35"
serde = { version = "=1.0.229", features = ["derive"] }
serde_yaml = "=0.9.34"
