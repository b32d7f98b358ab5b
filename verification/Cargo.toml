[package]
name = "retris_core"
version = "0.1.0"
edition = "2021"
publish = false

[dependencies]
agb = "0.24.0"
