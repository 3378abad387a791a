[package]
name = "madara_core"
version = "0.1.0"
edition = "2021"
publish = false

[dependencies]
starknet-crypto = "=0.6.2"
sp-crypto-hashing = "*"
