[package]
name = "synteny"
version = "0.1.0"
edition = "2021"
publish = false

[dependencies]
regex = "=1.13.1"
rusqlite = { version = "=0.40.2", features = ["bundled", "fallible_uint"] }
flate2 = "=1.1.10"
