[package]
name = "token_swap"
version = "0.1.0"
edition = "2021"
publish = false

[dependencies]
sha2 = "*"

[dev-dependencies]
hex = "*"
