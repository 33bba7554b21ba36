[package]
name = "dca"
version = "0.1.0"
edition = "2021"
publish = false

[dependencies]
cosmwasm-std = { version = "=1.5.11", features = ["stargate", "staking"] }
cw2 = "=1.1.2"
cw-storage-plus = "=1.2.0"
serde = { version = "=1.0.229", features = ["derive"] }
schemars = "=0.8.22"
thiserror = "=1.0.69"
cosmos-sdk-proto = { version = "=0.16.0", default-features = false }
