[package]
name = "rust-life"
version = "0.1.0"
edition = "2021"
publish = false

[dependencies]
clap = { version = "4", features = ["derive"] }
image = "*"
piston_window = "*"
rand = "0.8"
rayon = "1"
