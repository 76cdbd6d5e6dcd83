[package]
name = "relyo"
version = "0.1.0"
edition = "2021"
publish = false

[dependencies]
sha3 = "0.10"
blake3 = "1"
bs58 = "0.5"
hex = "0.4"
ed25519-dalek = { version = "2", features = ["rand_core"] }
rand = "0.8"
dashmap = "6"
aes-gcm = "0.10"
argon2 = "0.5"
zeroize = "1"
serde = { version = "1", features = ["derive"] }
serde_json = "1"
bincode = "1"
toml = "0.8"
redb = "2"
