[package]
name = "chip8"
version = "0.1.0"
edition = "2021"

[dependencies]
fastrand = "2"
macroquad = { version = "0.4", features = ["audio"] }
