[package]
name = "void_reckoning"
version = "0.1.0"
edition = "2021"
publish = false

[dependencies]
rand = "0.8"
uuid = { version = "1", features = ["v4"] }
petgraph = "0.6"
serde = { version = "1", features = ["derive"] }
serde_json = "1"
pyo3 = "0.22"
