[package]
name = "fitch"
version = "0.1.0"
edition = "2021"
publish = false

[dependencies]
ariadne = "0.3"
chumsky = "0.9"
colored = "2"
rand = "0.8"
reedline = "*"
thiserror = "1"
