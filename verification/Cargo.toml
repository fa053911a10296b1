[package]
name = "flutter"
version = "0.1.0"
edition = "2021"
publish = false

[dependencies]
anyhow = "1"
async-tungstenite = { version = "*", features = ["tokio-runtime"] }
chrono = "0.4"
futures = "0.3"
regex = "1"
serde = { version = "1", features = ["derive"] }
serde_json = "1"
smol = "2"
