[package]
name = "bnpl_ledger"
version = "0.1.0"
edition = "2021"
publish = false

[dependencies]
soroban-sdk = "=22.0.11"
soroban-token-sdk = "=22.0.11"
