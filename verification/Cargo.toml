[package]
name = "hir_index"
version = "0.1.0"
edition = "2021"
publish = false

[dependencies]
num-bigint = "0.4"
num-traits = "0.2"
dirs = "*"

[dev-dependencies]
num-bigint = "0.4"
