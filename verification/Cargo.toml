[package]
name = "data_guard"
version = "0.1.0"
edition = "2021"
publish = false

[dependencies]
anyhow = "1"
arrow = "*"
parquet = { version = "*", features = ["arrow"] }
