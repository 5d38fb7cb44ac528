[package]
name = "paperback-core"
version = "0.1.0"
edition = "2021"
publish = false

[dependencies]
aead = "0.4"
anyhow = "1"
chacha20poly1305 = "0.8"
ed25519-dalek = "1.0"
multihash = { version = "0.13", default-features = false, features = ["std", "multihash-impl", "blake2b"] }
quickcheck = "1"
rand = "0.7"
thiserror = "1"
tiny-bip39 = "0.8"
unsigned-varint = "0.7"
zbase32 = "0.1"
