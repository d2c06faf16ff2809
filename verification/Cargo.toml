[package]
name = "circuit_trace"
version = "0.1.0"
edition = "2021"
publish = false

[dependencies]
halo2_proofs = { version = "*", default-features = false }
