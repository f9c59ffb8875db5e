[package]
name = "sovereign_bridge"
version = "0.1.0"
edition = "2021"
publish = false

[dependencies]
multiversx-sc = "*"
multiversx-chain-vm = "*"
base64 = "0.22"
hex = "0.4"
rand = "0.9"
rand_core = { version = "0.6", features = ["getrandom"] }
serde = { version = "1", features = ["derive"] }
toml = "*"
