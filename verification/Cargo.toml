[package]
name = "autopilot"
version = "0.1.0"
edition = "2021"
publish = false

[dependencies]
image = { version = "0.25", default-features = false }
libc = "0.2"
rand = "0.8"
scopeguard = "1"
x11 = { version = "2", features = ["xlib"] }
