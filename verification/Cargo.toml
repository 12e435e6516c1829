[package]
name = "revolt_client"
version = "0.1.0"
edition = "2021"
publish = false

[dependencies]
ulid = "*"
serde = { version = "*", features = ["derive"] }
serde_json = "*"
