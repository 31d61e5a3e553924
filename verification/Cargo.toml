[package]
name = "solana-ed25519"
version = "0.1.0"
edition = "2021"
publish = false

[dependencies]
sha2 = "0.10"
ed25519 = "2"
