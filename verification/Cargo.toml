[package]
name = "upgrade_verifier"
version = "0.1.0"
edition = "2021"
publish = false

[dependencies]
alloy = { version = "0.12", default-features = false, features = ["std", "sol-types"] }
anyhow = "1"
clap = { version = "4", features = ["derive"] }
env_logger = "0.11"
serde = { version = "1", features = ["derive"] }
serde_yaml = "0.9"
tokio = { version = "1", features = ["macros", "rt-multi-thread"] }
