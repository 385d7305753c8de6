[package]
name = "yaobow_shared"
version = "0.1.0"
edition = "2021"
publish = false

[dependencies]
encoding = "=0.2.33"
roxmltree = "=0.21.2"
miniz_oxide = "=0.9.1"
minilzo-rs = "*"
serde = { version = "=1.0.229", features = ["derive"] }
serde_json = "=1.0.154"
anyhow = "=1.0.104"
log = "=0.4.35"
