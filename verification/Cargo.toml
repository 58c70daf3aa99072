[package]
name = "room_server"
version = "0.1.0"
edition = "2021"
publish = false

[dependencies]
serde = { version = "1", features = ["derive"] }
serde_json = "1"
http = "1"
regex = "1"
log = "0.4"
env_logger = "0.11"
