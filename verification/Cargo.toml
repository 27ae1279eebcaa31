[package]
name = "completest"
version = "0.1.0"
edition = "2021"
publish = false

[dependencies]
vt100 = "*"
ptyprocess = "*"
dunce = "*"
