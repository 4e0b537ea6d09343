[package]
name = "crustopals"
version = "0.1.0"
edition = "2021"
publish = false

[dependencies]
md4 = "=0.11.0"

[dev-dependencies]
hex = "=0.4.3"
rand = "=0.10.3"
