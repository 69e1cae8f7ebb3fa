[package]
name = "chroma"
version = "0.1.0"
edition = "2021"
publish = false

[dependencies]
bmp = "*"
csv = "*"
rand = "*"

[dev-dependencies]
palette = "*"
