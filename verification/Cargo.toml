[package]
name = "bp-dbc"
version = "0.9.0"
edition = "2021"
publish = false

[dependencies]
amplify = "=3.14.2"
bitcoin = "=0.29.2"
commit_verify = { version = "=0.9.0", features = ["rand"] }
psbt = "=0.9.0"
strict_encoding = "=0.9.0"
