[package]
name = "minecraft_plus_wayland"
version = "0.1.0"
edition = "2021"
publish = false

[dependencies]
env_logger = "*"
image = { version = "*", default-features = false, features = ["png"] }
libc = "0.2"
log = "0.4"
obj = "0.10"
pollster = "*"
rand = "0.6"
rand_hc = "0.1"
raw-window-handle = "0.6"
smithay-client-toolkit = "*"
wasmi = "*"
wgpu = "*"
zeroize = "1"
zip = { version = "*", default-features = false, features = ["deflate"] }
