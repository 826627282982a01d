[package]
name = "apt_chain"
version = "0.1.0"
edition = "2021"

[dependencies]
sha2 = "0.10"
tempfile = "3"
