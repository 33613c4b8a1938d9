[package]
name = "pdm"
version = "0.1.0"
edition = "2021"
publish = false

[dependencies]
numpy = "0.23"
pyo3 = { version = "0.23", features = ["extension-module"] }
rayon = "1.10"
