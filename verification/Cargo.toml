[package]
name = "image_processing"
version = "0.1.0"
edition = "2021"
publish = false

[dependencies]
fltk = "*"
jpeg-encoder = "*"
chrono = "*"
rust-embed = "*"
image = { version = "*", default-features = false }
