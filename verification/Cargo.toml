[package]
name = "pbft_core"
version = "0.1.0"
edition = "2021"
publish = false

[dependencies]
sha2 = "=0.11.0"
secp256k1 = "=0.33.1"
