[package]
name = "oracle_omen"
version = "0.1.0"
edition = "2021"
publish = false

[dependencies]
blake3 = "1"
sha2 = "0.10"
wasmi = "0.31"
wat = "1"
serde = { version = "1", features = ["derive"] }
serde_json = "1"
serde_bytes = "0.11"
clap = { version = "4", features = ["derive"] }
