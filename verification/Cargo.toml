[package]
name = "rufio"
version = "0.1.0"
edition = "2021"
publish = false

[dependencies]
glob = "0.3"
anyhow = "1"
chrono = "0.4"
serde = { version = "1", features = ["derive"] }
serde_json = "1"
serde_yaml = "0.9"
