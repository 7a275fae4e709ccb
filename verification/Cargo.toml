[package]
name = "earth-files"
version = "0.1.0"
edition = "2021"
publish = false

[dependencies]
dirs = "=6.0.0"
freedesktop-desktop-entry = { version = "=0.8.4", default-features = false }
freedesktop-icons = "=0.4.0"
libc = "=0.2.191"
mime_guess = "=2.0.5"
procfs = { version = "=0.18.0", default-features = false }
regex = "=1.13.1"
shlex = "=1.3.0"
tokio = { version = "=1.54.1", features = ["rt", "time"] }
url = "=2.5.8"
xdg = "=3.0.0"
zbus = "=5.19.0"
