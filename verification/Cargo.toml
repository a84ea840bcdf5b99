[package]
name = "invoicelift"
version = "0.1.0"
edition = "2021"
publish = false

[dependencies]
ed25519-dalek = { version = "2", features = ["rand_core"] }
soroban-sdk = "20.5.0"

[dev-dependencies]
rand = "0.8"
