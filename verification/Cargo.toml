[package]
name = "buck2_bits"
version = "0.1.0"
edition = "2021"
publish = false

[dependencies]
allocative = "*"
dupe = "*"
strong_hash = "*"
futures = "*"
tokio = { version = "*", features = ["rt", "sync"] }
starlark = "*"
