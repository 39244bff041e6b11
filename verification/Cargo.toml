[package]
name = "relayer"
version = "0.1.0"
edition = "2021"
publish = false

[dependencies]
clap = "2"
log = "0.4"
postgres = "0.19"
rocksdb = "*"
solana-sdk = { version = "2", default-features = false }
