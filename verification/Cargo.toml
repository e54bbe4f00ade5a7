[package]
name = "blg_moire"
version = "0.1.0"
edition = "2021"
publish = false

[dependencies]
ndarray = "*"
num-complex = "*"
serde_json = "*"
itertools = "*"
linxal = "*"
