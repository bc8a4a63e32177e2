[package]
name = "hexview"
version = "0.1.0"
edition = "2021"
publish = false

[dependencies]
iced_native = "0.3"
iced_graphics = "0.1"
