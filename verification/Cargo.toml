[package]
name = "chain_watch"
version = "0.1.0"
edition = "2021"
publish = false

[dependencies]
tokio = { version = "*", features = ["sync", "rt", "time"] }
substrate-crypto-light = "*"
