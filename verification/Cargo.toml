[package]
name = "xts-syntax"
version = "0.1.0"
edition = "2021"
publish = false

[dependencies]
scanny = "=0.1.0"
