[package]
name = "tbl_core"
version = "0.1.0"
edition = "2021"
publish = false

[dependencies]
hex = "0.4"
arrow = { version = "*", default-features = false }
parquet = { version = "*", default-features = false, features = ["arrow", "async", "snap"] }
tokio = { version = "1", features = ["fs", "io-util", "macros", "rt-multi-thread", "sync"] }
futures = "0.3"
clap = { version = "4", features = ["derive"] }
inquire = "*"
thiserror = "1"
