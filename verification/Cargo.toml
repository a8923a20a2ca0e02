[package]
name = "nutblaster"
version = "0.1.0"
edition = "2021"
publish = false

[dependencies]
color-eyre = "0.6"
env_logger = "0.11"
fnv = "1"
futures-util = "0.3"
indexmap = "2"
log = "0.4"
rand = "0.9"
serde = { version = "1", features = ["derive"] }
serde_json = "1"
tokio = { version = "1", features = ["full"] }
tokio-tungstenite = "0.26"
