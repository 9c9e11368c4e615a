[package]
name = "qsb_did"
version = "0.1.0"
edition = "2021"
publish = false

[dependencies]
bs58 = "0.5"
blake2 = "0.10"
ml-dsa = "*"
signature = "*"
serde = { version = "1", features = ["derive"] }

[dev-dependencies]
rand = "*"
