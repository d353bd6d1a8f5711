[package]
name = "transfer_hook"
version = "0.1.0"
edition = "2021"
publish = false

[dependencies]
anchor-lang = "0.31.1"
anchor-spl = "0.31.1"
spl-tlv-account-resolution = "0.9"
spl-transfer-hook-interface = "0.9"
spl-token-2022 = { version = "6", features = ["no-entrypoint"] }
