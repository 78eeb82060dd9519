[package]
name = "zero_wallet"
version = "0.1.0"
edition = "2021"
publish = false

[dependencies]
array-init = "2"
risc0-zkvm = { version = "*", default-features = false, features = ["std"] }
serde = { version = "1", features = ["derive"] }
serde_arrays = "*"
