[package]
name = "oracle_node"
version = "0.1.0"
edition = "2021"
publish = false

[dependencies]
num-bigint = "*"
secp256k1 = { version = "*", features = ["rand", "hashes"] }
starknet = "*"
tokio = { version = "*", features = ["rt-multi-thread", "macros", "sync", "net", "time"] }
axum = "*"
serde = { version = "*", features = ["derive"] }

[dev-dependencies]
rand = "*"
