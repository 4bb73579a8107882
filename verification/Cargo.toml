[package]
name = "vps"
version = "0.1.0"
edition = "2021"
publish = false

[dependencies]
serde = { version = "=1.0.229", features = ["derive"] }
serde_json = "=1.0.154"
toml = "=0.9.12"
thiserror = "=2.0.21"
clap = { version = "=4.6.7", features = ["derive"] }
libc = "=0.2.191"
alacritty_terminal = "=0.25.1"
iced = { version = "=0.14.0", default-features = false, features = ["tiny-skia", "wayland", "thread-pool"] }
