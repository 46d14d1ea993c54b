[package]
name = "merkle_tree"
version = "0.1.0"
edition = "2021"
publish = false

[dependencies]
anyhow = "1"
sha256 = { version = "1", default-features = false }
