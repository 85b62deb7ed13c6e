[package]
name = "fastcrypto_zkp"
version = "0.1.0"
edition = "2021"
publish = false

[dependencies]
ark-bls12-381 = "=0.3.0"
ark-crypto-primitives = "=0.3.0"
ark-ec = "=0.3.0"
ark-ff = "=0.3.0"
ark-groth16 = "=0.3.0"
ark-relations = "=0.3.0"
ark-serialize = "=0.3.0"
ark-std = "=0.3.0"
blst = { version = "=0.3.17", features = ["no-threads"] }

[dev-dependencies]
proptest = "=1.12.0"
