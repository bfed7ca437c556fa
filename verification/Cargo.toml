[package]
name = "htty"
version = "0.3.0"
edition = "2021"
publish = false

[dependencies]
anyhow = "=1.0.104"
avt = "=0.14.0"
futures-util = "=0.3.34"
nix = { version = "=0.28.0", features = ["term", "process", "fs", "signal"] }
serde = { version = "=1.0.229", features = ["derive"] }
serde_json = "=1.0.154"
tokio = { version = "=1.54.1", features = ["full"] }
tokio-stream = { version = "=0.1.19", features = ["sync"] }
