[package]
name = "buttplug"
version = "0.1.0"
edition = "2021"
publish = false

[dependencies]
dashmap = "*"
serde = { version = "1", features = ["derive"] }
serde_json = "1"
prost = "*"
uuid = "1"
