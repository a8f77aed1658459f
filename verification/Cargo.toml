[package]
name = "u2f_hid"
version = "0.1.0"
edition = "2021"
publish = false

[dependencies]
byteorder = "1"
error-chain = "*"
hid = "*"
log = "*"
rust-crypto = "*"
