[package]
name = "uring_playground"
version = "0.1.0"
edition = "2021"
publish = false

[dependencies]
fnv = "1"
futures-lite = "2"
indexmap = "2"
io-uring = "*"
libc = "0.2"
thunderdome = "*"
