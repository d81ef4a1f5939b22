[package]
name = "x11_focus"
version = "0.1.0"
edition = "2021"
publish = false

[dependencies]
x11 = { version = "2.19.1", features = ["xlib"] }
