[package]
name = "pychan"
version = "0.1.0"
edition = "2021"
publish = false

[dependencies]
crossbeam-queue = "0.3"
crossbeam-utils = "0.8"
futures = "0.3"
pin-project = "1"
pyo3 = { version = "0.22", features = ["experimental-async"] }
