[package]
name = "html-auto-p"
version = "0.1.0"
edition = "2021"
publish = false

[dependencies]
regex = "1"
html-escape = "0.2"
trim-in-place = "0.1"
once_cell = "1"
