[package]
name = "ledger_core"
version = "0.1.0"
edition = "2021"
publish = false

[dependencies]
primitive-types = "0.12"
sparse-merkle-tree = "*"
sha2 = "0.10"
