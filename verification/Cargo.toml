[package]
name = "rust_lib"
version = "0.1.0"
edition = "2021"

[dependencies]
num-bigint = "0.4"
rand = "0.9"
