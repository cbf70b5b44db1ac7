[package]
name = "icn_covm"
version = "0.1.0"
edition = "2021"
publish = false

[dependencies]
chrono = "=0.4.45"
uuid = { version = "=1.29.0", features = ["v4"] }
serde = { version = "=1.0.229", features = ["derive"] }
serde_json = "=1.0.154"
ed25519-dalek = { version = "2", features = ["rand_core"] }
rand = "0.8"
multibase = "0.9"
clap = "4"
