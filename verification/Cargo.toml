[package]
name = "http_server"
version = "0.1.0"
edition = "2021"
publish = false

[dependencies]
chrono = "0.4"
ctrlc = "3"
env_logger = "0.11"
log = "0.4"
serde = { version = "1", features = ["derive"] }
serde_json = "1"
