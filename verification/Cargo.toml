[package]
name = "simulation"
version = "0.1.0"
edition = "2021"
publish = false

[dependencies]
nalgebra = { version = "0.32", features = ["rand"] }
rand = "0.8"
