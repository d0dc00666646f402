[package]
name = "liquidity_pool"
version = "0.1.0"
edition = "2021"
publish = false

[dependencies]
num-integer = "=0.1.45"
soroban-sdk = "=20.5.0"
