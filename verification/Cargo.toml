[package]
name = "particles"
version = "0.1.0"
edition = "2021"
publish = false

[dependencies]
array2d = "0.3"
rand = "0.8"
ggez = { version = "0.6", default-features = false }
