[package]
name = "brc20_index"
version = "0.1.0"
edition = "2021"
publish = false

[dependencies]
bitcoin = "0.29"
bitcoincore-rpc = "0.16"
mongodb = "2"
serde = { version = "1", features = ["derive"] }
serde_json = "1"
tokio = { version = "1", features = ["rt"] }
