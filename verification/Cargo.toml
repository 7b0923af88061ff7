[package]
name = "linketh"
version = "0.1.0"
edition = "2021"
publish = false

[dependencies]
alloy-primitives = "*"
sha3 = "0.10"
stylus-sdk = "*"
