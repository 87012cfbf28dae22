[package]
name = "agent_k_backend"
version = "0.1.0"
edition = "2021"
publish = false

[dependencies]
sha2 = "0.10"
uuid = { version = "1", features = ["v4"] }
slug = "0.1"
nanoid = "0.4"
tokio = { version = "1", features = ["fs", "io-util", "net", "rt", "sync", "time"] }
serde = { version = "1", features = ["derive"] }
serde_json = "1"
