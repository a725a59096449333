[package]
name = "relay_core"
version = "0.1.0"
edition = "2021"
publish = false

[dependencies]
bitcoin-spv = "*"
serde = { version = "*", features = ["derive"] }
serde_cbor = "*"
