[package]
name = "plonk_linearisation"
version = "0.1.0"
edition = "2021"
publish = false

[dependencies]
ark-ff = "0.3"
ark-poly = "0.3"
ark-ec = "0.3"
ark-bls12-381 = "0.3"
