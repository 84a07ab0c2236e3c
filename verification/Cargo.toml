[package]
name = "abraxas"
version = "0.1.0"
edition = "2021"
publish = false

[dependencies]
libc = "=0.2.190"
serde_json = "=1.0.151"
wayland-client = "=0.31.15"
wayland-protocols-wlr = { version = "=0.3.12", features = ["client"] }
x11rb = { version = "=0.14.0", features = ["randr"] }
