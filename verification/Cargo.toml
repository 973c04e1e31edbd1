[package]
name = "lockup_stake"
version = "0.1.0"
edition = "2021"
publish = false

[dependencies]
cosmwasm-std = "1"
cw721 = "0.18"
osmosis-std = "0.22"
serde = { version = "1", features = ["derive"] }
