[package]
name = "scryer_plugins"
version = "0.1.0"
edition = "2021"
publish = false

[dependencies]
base64 = "0.22"
postcard = { version = "1", features = ["alloc"] }
serde = { version = "1", features = ["derive"] }
serde_json = "1"
url = "2"
