[package]
name = "randomness_beacon"
version = "0.1.0"
edition = "2021"
publish = false

[dependencies]
parity-scale-codec = { version = "=3.7.5", features = ["derive"] }
sp-core = { version = "=43.0.0", default-features = false }
sp-crypto-hashing = "=0.1.0"
futures = "=0.3.34"
futures-timer = "=3.0.4"
log = "=0.4.34"
parking_lot = "=0.12.5"
