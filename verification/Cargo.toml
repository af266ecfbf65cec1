[package]
name = "mcpricer"
version = "0.1.0"
edition = "2021"
publish = false

[dependencies]
wide = "*"
simd_rand = "*"
rand_core = "0.6"
rand = "0.8"
rand_distr = "0.4"
rayon = "1"
bytemuck = "1"
