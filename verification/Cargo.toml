[package]
name = "conduit_contracts"
version = "0.1.0"
edition = "2021"
publish = false

[dependencies]
soroban-sdk = "=22.0.11"

[dev-dependencies]
ed25519-dalek = "=3.0.0"
