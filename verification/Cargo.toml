[package]
name = "dalek-keccak"
version = "0.1.0"
edition = "2021"
publish = false

[dependencies]
digest = "0.7"
generic-array = "0.9"

[dev-dependencies]
sha3 = "0.7"
