[package]
name = "terra_deposit_withdraw"
version = "0.1.0"
edition = "2021"
publish = false

[dependencies]
cosmwasm-std = "*"
cw-storage-plus = "*"
cw2 = "*"
schemars = "*"
serde = { version = "*", features = ["derive"] }
thiserror = "*"
