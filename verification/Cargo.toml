[package]
name = "stark_proof"
version = "0.1.0"
edition = "2021"
publish = false

[dependencies]
winter-fri = "=0.1.0"
winter-math = "=0.1.0"
winter-utils = "=0.1.0"
serde = { version = "=1.0.229", features = ["derive"] }
