[package]
name = "tradesession"
version = "0.1.0"
edition = "2021"
publish = false

[dependencies]
anyhow = "1"
chrono = { version = "0.4", default-features = false, features = ["std"] }
csv = "1"
cxx = "1"
encoding_rs_io = "0.1"
pyo3 = { version = "*", features = ["chrono"] }
pyo3-stub-gen = "*"
serde_json = "1"
