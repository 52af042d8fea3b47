[package]
name = "tinywasm"
version = "0.1.0"
edition = "2021"
publish = false

[dependencies]
anyhow = "1"
nom-leb128 = "0.2"

[dev-dependencies]
wat = "1"
