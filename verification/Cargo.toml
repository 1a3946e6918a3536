[package]
name = "context7_cache"
version = "0.1.0"
edition = "2021"
publish = false

[dependencies]
anyhow = "1"
extism-pdk = "1"
schemars = "1"
serde = { version = "1", features = ["derive"] }
serde_json = "1"
url = "2"
