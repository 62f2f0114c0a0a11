[package]
name = "neon_serde"
version = "0.1.0"
edition = "2021"
publish = false

[dependencies]
neon = "1"
serde = "1"
