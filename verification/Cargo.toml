[package]
name = "tickrush"
version = "0.1.0"
edition = "2021"
publish = false

[dependencies]
pyo3 = "0.22"
serde_json = "1"
flate2 = "1"
