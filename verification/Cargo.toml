[package]
name = "embedded_support"
version = "0.1.0"
edition = "2021"
publish = false

[dependencies]
anyhow = "1"
log = "0.4"
serde_json = { version = "1", features = ["preserve_order"] }
which = "6"
