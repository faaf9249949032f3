[package]
name = "spv_relay"
version = "0.1.0"
edition = "2021"
publish = false

[dependencies]
bitcoin-spv = "*"
num-derive = "*"
num-traits = "*"
thiserror = "*"
solana-sdk = "*"
