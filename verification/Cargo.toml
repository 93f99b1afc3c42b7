[package]
name = "heic_ready"
version = "0.1.0"
edition = "2021"
publish = false

[dependencies]
crossbeam-channel = "*"
notify = "*"
serde = { version = "*", features = ["derive"] }
serde_json = "*"
log = "*"
