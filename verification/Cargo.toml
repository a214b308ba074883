[package]
name = "chttp"
version = "0.1.0"
edition = "2021"
publish = false

[dependencies]
curl = "0.4"
os_pipe = "*"
slab = "*"
