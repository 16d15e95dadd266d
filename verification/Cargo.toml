[package]
name = "vuzic"
version = "0.1.0"
edition = "2021"
publish = false

[dependencies]
image = "=0.25.10"
fast-math = "=0.1.1"
hsluv = "=0.3.1"
rppal = "=0.22.1"
rpi-led-matrix = { version = "=0.4.0", features = ["c-stubs"] }
