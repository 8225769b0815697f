[package]
name = "rust_9cc"
version = "0.1.0"
edition = "2021"
publish = false
