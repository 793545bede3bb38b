[package]
name = "sunscreen"
version = "0.1.0"
edition = "2021"
publish = false

[dependencies]
petgraph = { version = "0.6", features = ["serde-1"] }
crypto-bigint = "0.4"
serde = { version = "1", features = ["derive"] }
bumpalo = "3"
