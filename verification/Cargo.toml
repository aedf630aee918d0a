[package]
name = "pico-detect"
version = "0.1.0"
edition = "2021"
publish = false

[dependencies]
image = "*"
imageproc = "*"
nalgebra = "*"
rand = "*"
rand_xorshift = "*"
similarity-least-squares = "*"
pixelutil-image = "*"
