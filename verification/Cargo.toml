[package]
name = "liquid_vote"
version = "0.1.0"
edition = "2021"
publish = false

[dependencies]
bincode2 = "2.0"
cosmwasm-std = "0.10"
schemars = "0.7"
serde = { version = "1.0", features = ["derive"] }
