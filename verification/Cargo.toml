[package]
name = "tl-storage"
version = "0.1.0"
edition = "2021"
publish = false

[dependencies]
sha2 = "0.10"
blake3 = { version = "1", features = ["pure"] }
base64 = "0.22"
rand = "0.8"
uuid = { version = "1", features = ["v4", "v7"] }
serde = { version = "1", features = ["derive"] }
serde_json = "1"
chrono = "0.4"
tokio = { version = "1", features = ["sync"] }
async-trait = "0.1"
