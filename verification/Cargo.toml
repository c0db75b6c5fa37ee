[package]
name = "cros-codecs"
version = "0.1.0"
edition = "2021"
publish = false

[dependencies]
anyhow = "1"
cros-libva = "*"
log = "0.4"
