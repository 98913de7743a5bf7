[package]
name = "dry_core"
version = "0.9.1"
edition = "2021"
publish = false

[dependencies]
serde = { version = "1", features = ["derive"] }
serde_json = "1"
libm = "0.2"
