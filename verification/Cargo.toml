[package]
name = "mkpw"
version = "0.1.0"
edition = "2021"
publish = false

[dependencies]
base64 = "0.13"
md-5 = "0.10"
pancurses = "0.17"
rand = "0.8"
