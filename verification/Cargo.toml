[package]
name = "consent_ledger"
version = "0.1.0"
edition = "2021"
publish = false

[dependencies]
concordium-std = "*"
