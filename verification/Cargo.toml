[package]
name = "rho_call"
version = "0.1.0"
edition = "2021"
publish = false

[dependencies]
num-bigint = "=0.4.8"
num-traits = "=0.2.19"
halo2_proofs = "=0.1.0"
pasta_curves = "=0.4.1"
log = "=0.4.35"
