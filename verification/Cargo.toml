[package]
name = "zero_shell"
version = "0.1.0"
edition = "2021"
publish = false

[dependencies]
chrono = "0.4"
chrono-tz = "*"
colored = "*"
libc = "0.2"
users = "0.11"
xattr = "*"
