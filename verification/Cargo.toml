[package]
name = "coinswap"
version = "0.1.0"
edition = "2021"
publish = false

[dependencies]
bitcoin = "0.32"
bitcoind = { version = "0.36", default-features = false }
clap = { version = "3.2", features = ["derive"] }
