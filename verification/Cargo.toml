[package]
name = "ech_workers"
version = "0.1.0"
edition = "2021"
publish = false

[dependencies]
base64 = "0.22"
rand = "0.8"
lru = "0.12"
dashmap = "6"
tokio = { version = "1", features = ["full"] }
reqwest = { version = "0.12", default-features = false }
serde = { version = "1", features = ["derive"] }
serde_json = "1"
toml = "0.8"
clap = { version = "4", features = ["derive"] }
tracing = "0.1"
anyhow = "1"
futures = "0.3"
tokio-util = { version = "0.7", features = ["compat"] }
tokio-tungstenite = "0.21"
tungstenite = "0.21"
yamux = "0.13"
directories = "5"
