[package]
name = "recoverable_ecdsa"
version = "0.1.0"
edition = "2021"
publish = false

[dependencies]
libsecp256k1 = "=0.7.2"
hmac-drbg = "=0.3.0"
sha2 = "=0.9.9"
sha3 = "=0.9.1"
rand = "=0.8.8"
