[package]
name = "chrome-devtools"
version = "0.5.0"
edition = "2021"
publish = false

[dependencies]
base64 = "0.22"
serde_json = "1"
