[package]
name = "poseidon_bn254"
version = "0.1.0"
edition = "2021"
publish = false

[dependencies]
ark-bn254 = "=0.5.0"
ark-ff = "=0.5.0"
halo2curves = "=0.10.0"
itertools = "=0.13.0"
light-poseidon = "=0.3.0"
