[package]
name = "rust_calc"
version = "0.1.0"
edition = "2021"
publish = false

[dependencies]
num-bigfloat = "*"
num-traits = "*"
rustyline = "*"
