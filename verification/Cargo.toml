[package]
name = "voting_wallet"
version = "0.1.0"
edition = "2021"
publish = false

[dependencies]
secp256k1 = "0.27"
rand = "0.8"
hex = "0.4"
sp-arithmetic = { version = "26", default-features = false }
