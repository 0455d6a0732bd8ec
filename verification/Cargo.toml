[package]
name = "dogwalk"
version = "0.1.0"
edition = "2021"
publish = false

[dependencies]
termion = "*"
rand = "*"
libc = "*"
