[package]
name = "logpack"
version = "0.1.0"
edition = "2021"
publish = false

[dependencies]
flate2 = "=1.1.10"
zstd = { version = "=0.14.0", features = ["experimental"] }
