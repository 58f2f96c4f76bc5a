[package]
name = "filedrop"
version = "0.1.0"
edition = "2021"
publish = false

[dependencies]
sha2 = "0.10"
uuid = { version = "1", features = ["v4"] }
mdns-sd = "*"
serde = { version = "1", features = ["derive"] }
serde_json = "1"
dirs = "*"
