[package]
name = "wallet_core"
version = "0.1.0"
edition = "2021"
publish = false

[dependencies]
bip39 = "*"
cryptoxide = "*"
thiserror = "*"
