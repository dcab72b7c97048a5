[package]
name = "emu8"
version = "0.1.0"
edition = "2021"
publish = false

[dependencies]
winit = { version = "0.28", default-features = false, features = ["x11"] }
