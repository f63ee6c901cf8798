[package]
name = "parquetpeek"
version = "0.1.0"
edition = "2021"
publish = false

[dependencies]
parquet = { version = "*", default-features = false, features = ["arrow"] }
bytes = "1"
anyhow = "1"
clap = { version = "4", features = ["derive"] }

[dev-dependencies]
arrow = { version = "*", default-features = false }
