[package]
name = "lis"
version = "0.2.3"
edition = "2021"
publish = false

[dependencies]
libc = "0.2"
term_grid = "*"
term_size = "*"
