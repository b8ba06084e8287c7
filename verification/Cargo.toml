[package]
name = "jrinx_core"
version = "0.1.0"
edition = "2021"
publish = false

[dependencies]

[dev-dependencies]
rand = { version = "0.8", features = ["small_rng"] }
