[package]
name = "cedrus"
version = "0.1.0"
edition = "2021"
publish = false

[dependencies]
base64 = "*"
cedar-policy = "=4.13.0"
chrono = "*"
rand = "*"
serde_json = { version = "=1.0.151", features = ["preserve_order"] }
uuid = { version = "*", features = ["v7"] }
