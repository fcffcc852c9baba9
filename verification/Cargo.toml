[package]
name = "supermarioemu"
version = "0.1.0"
edition = "2021"
publish = false

[dependencies]
thiserror = "1"
rayon = "1"
pyo3 = "0.22"
numpy = "0.22"
