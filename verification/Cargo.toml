[package]
name = "rtrb"
version = "0.1.0"
edition = "2021"
publish = false

[dependencies]
cache-padded = "=1.1.1"
