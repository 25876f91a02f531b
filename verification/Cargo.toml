[package]
name = "nixlock"
version = "0.1.0"
edition = "2021"
publish = false

[dependencies]
calloop = "0.14"
calloop-wayland-source = "0.4"
chrono = "0.4"
fontdue = "0.9"
libc = "0.2"
pam-client = "0.5"
serde = { version = "1", features = ["derive"] }
serde_json = "1"
smithay-client-toolkit = "0.20"
tiny-skia = "0.11"
wayland-client = "0.31"
zeroize = "1"
