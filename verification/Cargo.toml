[package]
name = "hash-bench"
version = "0.1.0"
edition = "2021"
publish = false

[dependencies]
sha2 = "0.10"
sha3 = "0.10"
blake3 = "1"
serde = { version = "1", features = ["derive"] }
serde_json = "1"
toml = "0.8"
