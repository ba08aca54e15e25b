[package]
name = "domain_hasher"
version = "0.1.0"
edition = "2021"
publish = false

[dependencies]
blake2b_simd = "*"
curv-kzen = "=0.10.0"
