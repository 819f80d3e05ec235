[package]
name = "solution_agent"
version = "0.1.0"
edition = "2021"
publish = false

[dependencies]
agent-client-protocol = "*"
anyhow = "1"
base64 = "0.22"
chrono = { version = "0.4", features = ["serde"] }
parking_lot = "0.12"
rand = "0.9"
regex = "1"
serde = { version = "1", features = ["derive"] }
serde_json = { version = "1", features = ["preserve_order"] }
uuid = "1"
