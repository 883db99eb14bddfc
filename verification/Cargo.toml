[package]
name = "passphrasex"
version = "0.1.0"
edition = "2021"
publish = false

[dependencies]
argon2 = "=0.6.0"
base64 = "=0.23.1"
bip32 = { version = "=0.5.3", features = ["bip39"] }
crypto_box = { version = "=0.9.1", features = ["chacha20"] }
hex = "=0.4.3"
