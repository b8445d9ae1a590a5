[package]
name = "jack_autoconnect"
version = "0.1.0"
edition = "2021"
publish = false

[dependencies]
anyhow = "*"
jack = "*"
json = "*"
regex = "*"
xdg = "*"
