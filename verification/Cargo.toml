[package]
name = "im_core"
version = "0.1.0"
edition = "2021"
publish = false

[dependencies]
dashmap = "*"
ulid = "*"
serde = { version = "*", features = ["derive"] }
serde_json = "*"
