[package]
name = "imgstruct"
version = "0.1.0"
edition = "2021"
publish = false

[dependencies]
base64 = "*"
chrono = "*"
image = { version = "*", default-features = false, features = ["png", "jpeg"] }
kamadak-exif = "*"
num-bigint = "*"
num-integer = "*"
num-traits = "*"
percent-encoding = "*"
rayon = "*"
regex = "*"
