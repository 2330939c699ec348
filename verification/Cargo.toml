[package]
name = "pallet_suite"
version = "0.1.0"
edition = "2021"
publish = false

[dependencies]
parity-scale-codec = { version = "=3.7.5", default-features = false, features = ["std"] }
frame-support = { version = "=49.0.1", default-features = false }
frame-system = { version = "=49.0.0", default-features = false }
pallet-balances = { version = "=51.0.2", default-features = false }
sp-core = { version = "=43.0.0", default-features = false }
sp-crypto-hashing = { version = "=0.1.0", default-features = false }
