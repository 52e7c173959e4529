[package]
name = "securearc"
version = "0.1.0"
edition = "2021"
publish = false

[dependencies]
argon2 = "=0.5.3"
pbkdf2 = "=0.12.2"
sha2 = "=0.10.9"
hmac = "=0.12.1"
ring = "=0.17.14"
chacha20poly1305 = "=0.10.1"
rand = "=0.8.8"
zstd = "=0.13.3"
lzma-rs = "=0.3.0"
brotli = "=8.0.4"
