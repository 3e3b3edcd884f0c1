[package]
name = "scewl"
version = "0.1.0"
edition = "2021"
publish = false

[dependencies]
aes = "0.7"
block-modes = "0.8"
heapless = "0.7"
hmac = "0.11"
rand = "0.8"
rand_hc = "0.3"
sha2 = "0.9"
