[package]
name = "polymesh_ledger"
version = "0.1.0"
edition = "2021"
publish = false

[dependencies]
parity-scale-codec = { version = "3", default-features = false, features = ["std"] }

[dev-dependencies]
rand = "0.8"
chrono = "0.4"
