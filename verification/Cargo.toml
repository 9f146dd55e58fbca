[package]
name = "fluff_auth"
version = "0.1.0"
edition = "2021"
publish = false

[dependencies]
jsonwebtoken = "9"

[dev-dependencies]
serde_json = "1"
base64 = "0.22"
