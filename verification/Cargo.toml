[package]
name = "vapor"
version = "0.1.0"
edition = "2021"
publish = false

[dependencies]
muda = "0.16"
objc2 = "0.6"
winit = "0.30"
