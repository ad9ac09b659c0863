[package]
name = "basic_bitcoin"
version = "0.1.0"
edition = "2021"
publish = false

[dependencies]
sha2 = "*"
ripemd = "*"
bs58 = "*"

[dev-dependencies]
hex = "*"
