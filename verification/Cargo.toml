[package]
name = "amoled_maker"
version = "0.1.0"
edition = "2021"
publish = false

[dependencies]
image = "0.23"
iced = { version = "0.3", features = ["image"] }
rfd = "0.4"
