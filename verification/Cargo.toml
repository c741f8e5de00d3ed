[package]
name = "image_manipulation"
version = "0.1.0"
edition = "2021"
publish = false

[dependencies]
aes-siv = "=0.7.0"
clap = { version = "4", features = ["derive"] }
image = { version = "0.25", default-features = false, features = ["png", "jpeg"] }
rfd = "0.15"
