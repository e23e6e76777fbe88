[package]
name = "vote_ledger"
version = "0.1.0"
edition = "2021"
publish = false

[dependencies]
secret-cosmwasm-std = "*"
secret-toolkit = { version = "*", default-features = false, features = ["storage", "serialization"] }
serde = { version = "*", features = ["derive"] }
schemars = "*"
