[package]
name = "zed"
version = "0.1.0"
edition = "2021"
publish = false

[dependencies]
anyhow = "1"
futures = "0.3"
log = "0.4"
serde = { version = "1", features = ["derive"] }
serde_json = "1"
smol = "2"
url = "2"
urlencoding = "2"
uuid = "1"
