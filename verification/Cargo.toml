[package]
name = "rouch"
version = "0.1.0"
edition = "2021"
publish = false

[dependencies]
fontdue = "=0.9.5"
smithay = { version = "=0.7.0", default-features = false, features = ["desktop", "wayland_frontend"] }
tracing = "=0.1.44"
