[package]
name = "telepad"
version = "0.9.0"
edition = "2021"
publish = false

[dependencies]
anyhow = "=1.0.104"
dirs = "=7.0.0"
grammers-client = "=0.11.0"
grammers-session = { version = "=0.11.0", features = ["sqlite-storage"] }
serde = { version = "=1.0.229", features = ["derive"] }
serde_json = "=1.0.154"
tokio = { version = "=1.54.1", features = ["rt-multi-thread", "macros"] }
toml = "=1.1.8"
