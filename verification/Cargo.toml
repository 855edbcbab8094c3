[package]
name = "bot_messenger"
version = "0.1.0"
edition = "2021"
publish = false

[dependencies]
log = "0.4"
rocket = "0.5"
serde = { version = "1", features = ["derive"] }
serde_json = "1"
ureq = { version = "2", default-features = false, features = ["json"] }
