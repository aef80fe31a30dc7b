[package]
name = "ua_engine"
version = "0.1.0"
edition = "2021"
publish = false

[dependencies]
regex = "*"
pyo3 = "=0.22.6"
