[package]
name = "typed_sighash"
version = "0.1.0"
edition = "2021"
publish = false

[dependencies]
sha3 = "*"
blake2b-ref = "*"
