[package]
name = "polyjuice"
version = "0.1.0"
edition = "2021"
publish = false

[dependencies]
ckb-hash = "*"
secp256k1 = { version = "*", features = ["recovery"] }
ckb-types = "*"
ckb-jsonrpc-types = "*"
serde = { version = "*", features = ["derive"] }
serde_json = "*"
clap = "*"
tempfile = "*"

[dev-dependencies]
hex = "*"
