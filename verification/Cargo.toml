[package]
name = "harmonium"
version = "0.1.0"
edition = "2021"
publish = false

[dependencies]
alacritty_terminal = "*"
anyhow = "1"
env_logger = "*"
futures = "0.3"
serde = { version = "1", features = ["derive"] }
serde_json = "1"
shlex = "*"
unicode-segmentation = "1"
uuid = { version = "1", features = ["v4"] }
wayland-client = "*"
wayland-protocols-misc = { version = "*", features = ["client"] }
wayland-protocols-wlr = { version = "*", features = ["client"] }
