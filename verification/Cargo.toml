[package]
name = "decorations"
version = "0.1.0"
edition = "2021"
publish = false

[dependencies]
crossfont = "*"
log = "0.4"
