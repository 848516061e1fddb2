[package]
name = "zcash_wire"
version = "0.1.0"
edition = "2021"
publish = false

[dependencies]
anyhow = "1"
rand = "0.8"
sha2 = "0.10"
