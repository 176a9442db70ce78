[package]
name = "baby_bear"
version = "0.1.0"
edition = "2021"
publish = false

[dependencies]
bytemuck = { version = "1", features = ["derive"] }
rand = { version = "0.8", features = ["small_rng"] }
risc0-zkvm = { version = "0.11", default-features = false }
