[package]
name = "tiger_lib"
version = "0.1.0"
edition = "2021"
publish = false

[dependencies]
anyhow = "1"
bitflags = "2"
fnv = "1"
inventory = "0.3"
