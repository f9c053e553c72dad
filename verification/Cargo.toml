[package]
name = "kalman_sim"
version = "0.1.0"
edition = "2021"
publish = false

[dependencies]
rand = "*"
svg = "*"
resvg = "*"
tiny-skia = "*"
image = "*"
