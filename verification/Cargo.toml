[package]
name = "waffle_format"
version = "0.1.0"
edition = "2021"
publish = false

[dependencies]
sha1 = "0.10"
base64 = "0.22"
flate2 = "1"
uuid = { version = "1", features = ["v4"] }
chrono = { version = "0.4", features = ["serde"] }
serde = { version = "1", features = ["derive"] }
serde_json = "1"
