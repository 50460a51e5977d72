[package]
name = "spadina"
version = "0.1.0"
edition = "2021"
publish = false

[dependencies]
chrono = "0.4"
chrono-tz = "0.8"
sha3 = "0.10"
hex = "0.4"
rand = { version = "0.8", features = ["small_rng"] }
serde = { version = "1", features = ["derive"] }
serde_json = "1"
rmp-serde = "1"
zstd = "0.13"
