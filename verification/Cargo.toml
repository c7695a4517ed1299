[package]
name = "frame_match"
version = "0.1.0"
edition = "2021"
publish = false

[dependencies]
image = "*"
image-compare = "*"
rayon = "*"
clap = { version = "*", features = ["derive"] }
