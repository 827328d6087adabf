[package]
name = "lsdb_server"
version = "0.1.0"
edition = "2021"
publish = false

[dependencies]
arrow = "*"
parquet = { version = "*", features = ["arrow", "async"] }
axum = "*"
tokio = { version = "*", features = ["full"] }
futures-util = "*"
