[package]
name = "mediachat_native"
version = "0.1.0"
edition = "2021"
publish = false

[dependencies]
widestring = "1"
url = "2"
serde = { version = "1", features = ["derive"] }
serde_json = "1"
