[package]
name = "recsys"
version = "0.1.0"
edition = "2021"
publish = false

[dependencies]
anyhow = "1"
quick-xml = "0.37"
reqwest = { version = "0.12", default-features = false, features = ["blocking", "json", "rustls-tls"] }
serde = { version = "1", features = ["derive"] }
serde_json = "1"
tokio = { version = "1", features = ["rt-multi-thread"] }
