[package]
name = "hpx_rs"
version = "0.1.0"
edition = "2021"
publish = false

[dependencies]
cxx = "1"
rand = "0.8"
