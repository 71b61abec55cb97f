[package]
name = "qr_encoder"
version = "0.1.0"
edition = "2021"
publish = false

[dependencies]
qrcode = { version = "*", default-features = false }
image = { version = "*", default-features = false, features = ["png", "jpeg", "bmp"] }
anyhow = "*"
clap = "*"
log = "*"
env_logger = "*"
