[package]
name = "cryptocurrency_multisig"
version = "0.1.0"
edition = "2021"
publish = false

[dependencies]
exonum = "=0.10.4"
serde = { version = "1.0", features = ["derive"] }
serde_json = "1.0"
sha2 = "=0.10.9"
