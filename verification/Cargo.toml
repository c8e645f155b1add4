[package]
name = "uomi_agent"
version = "0.1.0"
edition = "2021"
publish = false

[dependencies]
serde = { version = "1", features = ["derive"] }
serde_json = "1"
reqwest = "0.12"
thiserror = "1"

[dev-dependencies]
regex = "1"
