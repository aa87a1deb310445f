[package]
name = "tch"
version = "0.1.0"
edition = "2021"
publish = false

[dependencies]
half = "2"
libc = "0.2"
ndarray = "*"
torch-sys = "*"
