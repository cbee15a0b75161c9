[package]
name = "histogram_equalization"
version = "0.1.0"
edition = "2021"
publish = false

[dependencies]
colorutils-rs = "*"
yuvutils-rs = "*"
image = "*"
