[package]
name = "etesync"
version = "0.1.0"
edition = "2021"
publish = false

[dependencies]
base64 = "0.12"
hex = "0.4"
reqwest = { version = "0.10", features = ["blocking", "json"] }
serde = { version = "1", features = ["derive"] }
serde_json = "1"
url = "2"
