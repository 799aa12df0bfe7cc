[package]
name = "console_grid"
version = "0.1.0"
edition = "2021"
publish = false

[dependencies]
hex = "0.4"
substring = "1"
rand = "0.8"
rusttype = "0.9"
gl = "0.14"
glfw = "*"
