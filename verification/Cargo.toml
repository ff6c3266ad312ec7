[package]
name = "mrk_core"
version = "0.1.0"
edition = "2021"
publish = false

[dependencies]
base64 = "0.22"
chrono = "0.4"
redb = "*"
ring = "0.17"
serde = { version = "1", features = ["derive"] }
serde_json = "1"
url = "2"
