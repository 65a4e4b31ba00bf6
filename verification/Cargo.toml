[package]
name = "rust_mnist"
version = "0.1.0"
edition = "2021"

[dependencies]
log = "0.4"
