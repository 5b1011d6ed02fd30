[package]
name = "jotdown_py"
version = "0.1.0"
edition = "2021"
publish = false

[dependencies]
jotdown = "*"
pyo3 = "*"
