[package]
name = "xtools"
version = "0.1.0"
edition = "2021"
publish = false

[dependencies]
serde = { version = "1", features = ["derive"] }
serde_json = "1"
serde_cbor = "0.11"
serde-transcode = "1"
serde_yaml = "0.8"
ron = "0.6"
toml = "0.5"
