[package]
name = "sigpacket"
version = "0.1.0"
edition = "2021"
publish = false

[dependencies]
md-5 = "0.10"
sha1 = "0.10"
sha2 = "0.10"
ripemd160 = "0.9"
yasna = "0.5"
