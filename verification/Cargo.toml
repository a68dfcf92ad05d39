[package]
name = "mun_runtime"
version = "0.1.0"
edition = "2021"
publish = false

[dependencies]
tempfile = { version = "=3.27.0", default-features = false }
