[package]
name = "liquid_core"
version = "0.1.0"
edition = "2021"
publish = false

[dependencies]
tiny-keccak = { version = "*", features = ["keccak"] }
sm3 = "*"
parity-scale-codec = "*"
