[package]
name = "deos_mcpd"
version = "0.1.0"
edition = "2021"
rust-version = "1.75"
publish = false

[dependencies]
anyhow = "1"
axum = "0.7"
blake3 = { version = "1", features = ["pure"] }
clap = { version = "4", features = ["derive", "env"] }
dirs = "5"
regex = "1"
serde = { version = "1", features = ["derive"] }
serde_json = "1"
serde_yaml = "0.9"
tokio = { version = "1", features = ["full"] }
uuid = { version = "1", features = ["v4"] }
