[package]
name = "cosmos_airdrop"
version = "0.1.0"
edition = "2021"
publish = false

[dependencies]
cosmrs = { version = "*", default-features = false }
eyre = "0.6"
serde = { version = "1", features = ["derive"] }
toml = "*"
