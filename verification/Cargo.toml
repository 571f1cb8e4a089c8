[package]
name = "rusty_pdf"
version = "0.1.0"
edition = "2021"
publish = false

[dependencies]
flate2 = "1"
hex = "0.4"
md5 = "*"
regex = "1"
mockall = "*"
