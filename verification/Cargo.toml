[package]
name = "crypt_guard"
version = "0.1.0"
edition = "2021"
publish = false

[dependencies]
aes = "0.8"
byteorder = "1"
chacha20 = "0.9"
hex = "0.4"
hmac = "0.12"
sha2 = "0.10"
pqcrypto-classicmceliece = "*"
pqcrypto-falcon = "*"
pqcrypto-traits = "*"
tokio = { version = "1", features = ["rt", "rt-multi-thread"] }
