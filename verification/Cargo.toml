[package]
name = "op_proofs_verify"
version = "0.1.0"
edition = "2021"
publish = false

[dependencies]
alloy-primitives = "1"
alloy-trie = "0.9"
clap = { version = "4", features = ["derive"] }
eyre = "0.6"
tracing = "0.1"
