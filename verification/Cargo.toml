[package]
name = "batch_orchestrator"
version = "0.1.0"
edition = "2021"
publish = false

[dependencies]
regex = "1"
encoding_rs = "0.8"
glob = "0.3"
anyhow = "1"
async-trait = "0.1"
futures = "0.3"
tokio = { version = "1", features = ["full"] }
tokio-util = "0.7"
deadpool-postgres = "*"
tokio-postgres = "0.7"
serde = { version = "1", features = ["derive"] }
serde_yaml = "0.9"
