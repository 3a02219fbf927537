[package]
name = "missive"
version = "0.1.0"
edition = "2021"
publish = false

[dependencies]
ammonia = "4"
anyhow = "1"
chrono = "0.4"
clap = { version = "4", features = ["derive"] }
dialoguer = "0.11"
futures-util = "0.3"
hex = "0.4"
hmac = "0.12"
jmap-client = "*"
reqwest = "*"
secrecy = "*"
serde = { version = "1", features = ["derive"] }
serde_json = "1"
sha2 = "0.10"
tokio = { version = "1", features = ["full"] }
toml = "*"
