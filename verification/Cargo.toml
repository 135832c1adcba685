[package]
name = "facelock"
version = "0.1.0"
edition = "2021"
publish = false

[dependencies]
anyhow = "1"
bytemuck = "1"
chrono = "0.4"
clap = { version = "4", features = ["derive"] }
dialoguer = "0.11"
image = { version = "0.25", default-features = false, features = ["jpeg"] }
libc = "0.2"
nix = { version = "0.29", features = ["user"] }
serde = { version = "1", features = ["derive"] }
serde_json = "1"
signal-hook = "0.3"
toml = "0.8"
tracing = "0.1"
tracing-subscriber = { version = "0.3", features = ["env-filter"] }
v4l = "0.14"
wayland-client = "0.31"
zbus = "5"
