[package]
name = "frame_server"
version = "0.1.0"
edition = "2021"
publish = false

[dependencies]
once_cell = "1"
pyo3 = { version = "0.22", features = ["extension-module"] }
