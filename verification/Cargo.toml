[package]
name = "pijoy"
version = "0.1.0"
edition = "2021"
publish = false

[dependencies]
evdev = "*"
rppal = "*"
signal = "*"
structopt = "*"
