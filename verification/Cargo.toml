[package]
name = "sci_chain"
version = "0.1.0"
edition = "2021"
publish = false

[dependencies]
alloy-primitives = "*"
alloy-sol-types = "*"
alloy-rlp = "*"
alloy-eips = { version = "*", default-features = false }
revm = { version = "*", default-features = false }
thiserror = "*"
