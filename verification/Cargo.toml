[package]
name = "dmlog"
version = "0.1.0"
edition = "2021"
publish = false

[dependencies]
num-traits = "=0.2.19"
protobuf = "=2.28.0"
solana-program = "=1.10.41"
solana-sdk = "=1.10.41"
