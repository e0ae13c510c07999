[package]
name = "violet_soul"
version = "0.1.0"
edition = "2021"
publish = false

[dependencies]
aes = "0.8"
aes-gcm = "0.10"
argon2 = "0.5"
cbc = "0.1"
chacha20poly1305 = "0.10"
hmac = "0.12"
rand = "0.8"
scrypt = "0.11"
sha2 = "0.10"
zeroize = "1"
