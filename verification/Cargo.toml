[package]
name = "fj_tui"
version = "0.1.0"
edition = "2021"
publish = false

[dependencies]
base64 = "*"
rand = "*"
rand_chacha = "*"
