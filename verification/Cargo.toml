[package]
name = "dmart"
version = "0.1.0"
edition = "2021"
publish = false

[dependencies]
near-sdk = { version = "=5.30.0", features = ["non-contract-usage"] }
near-contract-standards = "=5.30.0"
base64 = "=0.13.1"
