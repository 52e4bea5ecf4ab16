[package]
name = "editor_core"
version = "0.1.0"
edition = "2021"
publish = false

[dependencies]
anyhow = "1"
chrono = "0.4"
futures = "0.3"
linkify = "0.10"
log = "0.4"
postage = "0.5"
serde = { version = "1", features = ["derive"] }
serde_json = "1"
smol = "2"
tempfile = "3"
