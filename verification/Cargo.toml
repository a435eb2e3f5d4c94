[package]
name = "solana_lock_contract"
version = "0.1.0"
edition = "2021"
publish = false

[dependencies]
solana-program = "1.18"
anchor-lang = "0.30"
