[package]
name = "tetrus"
version = "0.1.0"
edition = "2021"
publish = false

[dependencies]
rand = "0.8"
macroquad = { version = "0.3", features = ["audio"] }
