[package]
name = "sharpie"
version = "0.1.0"
edition = "2021"
publish = false

[dependencies]
zstd = "*"
image = "*"
clap = { version = "*", features = ["derive"] }
