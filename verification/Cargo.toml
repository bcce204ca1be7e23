[package]
name = "bridge_core"
version = "0.1.0"
edition = "2021"
publish = false

[dependencies]
sha2 = "=0.10.9"
bs58 = "=0.5.1"
serde = { version = "=1.0.229", features = ["derive"] }
serde_json = "=1.0.154"
tracing = "0.1"
toml = "*"
toml_edit = "*"
atomic-write-file = "*"
rand = "*"
