[package]
name = "l1ght"
version = "0.1.0"
edition = "2021"
publish = false

[dependencies]
pico-args = "*"
udev = "*"
