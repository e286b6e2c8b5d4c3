[package]
name = "songbird"
version = "0.1.0"
edition = "2021"
publish = false

[dependencies]
xsalsa20poly1305 = "*"
rand = "0.8"
parking_lot = "*"
twilight-model = "*"
