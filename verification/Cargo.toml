[package]
name = "parachute"
version = "0.1.0"
edition = "2021"
publish = false

[dependencies]
dashmap = "*"
serde = { version = "*", features = ["derive"] }
serde_json = "*"
