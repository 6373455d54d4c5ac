[package]
name = "camera_controls"
version = "0.1.0"
edition = "2021"
publish = false

[dependencies]
dirs = "*"
env_logger = "*"
image = "*"
libc = "0.2"
log = "0.4"
serde = { version = "1", features = ["derive"] }
toml = "*"
udev = "*"
v4l = "0.14"
