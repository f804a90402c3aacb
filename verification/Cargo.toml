[package]
name = "dimensional_reduction"
version = "0.1.0"
edition = "2021"
publish = false

[dependencies]
rayon = "=1.12.0"
num-traits = "=0.2.19"
indicatif = "=0.17.11"
pyo3 = { version = "=0.17.3", features = ["extension-module"] }
numpy = "=0.17.2"
