[package]
name = "keyseed"
version = "0.1.0"
edition = "2021"
publish = false

[dependencies]
aes-gcm = "0.10"
aes-gcm-siv = "0.11"
base64 = "0.22"
pbkdf2 = "0.12"
sha2 = "0.10"
rand = "0.8"
zeroize = "1"
eframe = { version = "0.31", default-features = false, features = ["glow", "x11", "default_fonts"] }
