[package]
name = "federation"
version = "0.1.0"
edition = "2021"
publish = false

[dependencies]
sha2 = "=0.10.9"
url = "=2.5.8"
ammonia = "=4.2.1"
tokio = { version = "=1.53.2", features = ["rt-multi-thread", "time", "sync", "macros"] }
reqwest = { version = "=0.12.28", default-features = false }
feed-rs = "=2.4.0"
cooklang = "=0.19.0"
tantivy = "=0.24.2"
chrono = "=0.4.45"
serde = { version = "=1.0.229", features = ["derive"] }
serde_json = "1"
serde_yaml = "=0.9.34"
