[package]
name = "rusptlib"
version = "0.1.0"
edition = "2021"
publish = false

[dependencies]
actix-cors = "*"
actix-web = { version = "4", default-features = false }
env_logger = "*"
serde = { version = "1", features = ["derive"] }
serde_json = "1"
