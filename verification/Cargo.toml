[package]
name = "rustrace"
version = "0.1.0"
edition = "2021"
publish = false

[dependencies]
rand = { version = "0.9", features = ["small_rng"] }
image = "0.25"
rayon = "1"
anyhow = "1"
mimalloc = "0.1"
