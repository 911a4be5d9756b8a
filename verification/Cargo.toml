[package]
name = "r1cs_export"
version = "0.1.0"
edition = "2021"
publish = false

[dependencies]
ff = "0.12"

[dev-dependencies]
bls12_381 = "0.7"
