[package]
name = "bls12_381_pairing"
version = "0.1.0"
edition = "2021"
publish = false

[dependencies]
ark-bls12-381 = "0.5"
ark-ec = "0.5"
ark-ff = "0.5"
ark-std = "0.5"
itertools = "*"
num = "0.4"
plonky2 = "*"
plonky2_ecdsa = "*"
rand = "0.8"
