[package]
name = "tao_format"
version = "0.1.0"
edition = "2021"
publish = false

[dependencies]
bytes = "1"
encoding_rs = "0.8"
