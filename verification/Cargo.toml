[package]
name = "basin"
version = "0.1.0"
edition = "2021"
publish = false

[dependencies]
web-time = "=1.1.0"
rand = { version = "=0.10.3", features = ["chacha"] }
rand_distr = "=0.6.0"
nalgebra = "=0.35.0"
ndarray = "=0.17.2"
faer = "=0.24.4"
