[package]
name = "pallet-kitties"
version = "0.1.0"
edition = "2021"
publish = false

[dependencies]
sp-io = "=49.0.0"
sp-runtime = "=49.0.0"
frame-support = "=49.0.1"
frame-system = "=49.0.0"
