[package]
name = "marketplace"
version = "0.1.0"
edition = "2021"
publish = false

[dependencies]
chrono = "0.4"
near-sdk = { version = "4.1", default-features = false }
