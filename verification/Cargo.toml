[package]
name = "intellisense"
version = "0.1.0"
edition = "2021"
publish = false

[dependencies]
anyhow = "=1.0.104"
md5 = "*"
notify = "=8.2.1"
serde = { version = "=1.0.229", features = ["derive"] }
serde_json = { version = "=1.0.154", features = ["preserve_order"] }
trash = "=5.2.9"
uuid = { version = "=1.29.0", features = ["v4"] }
walkdir = "=2.5.0"
