[package]
name = "nizk_dleq"
version = "0.1.0"
edition = "2021"
publish = false

[dependencies]
blstrs = { version = "0.7", features = ["serde"] }
ff = "0.13"
group = "0.13"
rand = "0.8"
serde = { version = "1", features = ["derive"] }
tiny-keccak = { version = "2", features = ["sha3"] }
sha3 = "0.10"
