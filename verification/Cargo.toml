[package]
name = "avail_core"
version = "0.1.0"
edition = "2021"
publish = false

[dependencies]
serde = { version = "*", features = ["derive"] }
serde_json = "*"
hex = "*"
parity-scale-codec = "*"
jsonrpsee-core = { version = "*", features = ["client"] }
