[package]
name = "tata_core"
version = "0.1.0"
edition = "2021"
publish = false

[dependencies]
bs58 = "*"
futures = "0.3"

[dev-dependencies]
serde_json = "1"
