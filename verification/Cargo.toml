[package]
name = "escrow_auction"
version = "0.1.0"
edition = "2021"
publish = false

[dependencies]
chrono = { version = "0.4", default-features = false, features = ["std"] }
serde = { version = "1", features = ["derive"] }
schemars = "0.7"
serde-json-wasm = "0.2"
secret-cosmwasm-std = "0.10"
secret-toolkit = { version = "0.3", default-features = false, features = ["serialization", "utils"] }
