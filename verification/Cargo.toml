[package]
name = "grid_weights"
version = "0.1.0"
edition = "2021"
publish = false

[dependencies]
geo = "=0.33.1"
geo-traits = "=0.3.0"
geoarrow = "=0.9.0"
numpy = "=0.30.0"
pyo3 = "=0.30.1"
pyo3-arrow = "=0.20.0"
