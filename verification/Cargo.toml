[package]
name = "press_party"
version = "0.1.0"
edition = "2021"
publish = false

[dependencies]
anyhow = "1"
clap = { version = "4", features = ["derive"] }
crossterm = "0.28"
image = { version = "0.25", default-features = false, features = ["png", "jpeg", "gif", "bmp", "tiff", "webp"] }
lofty = "0.22"
owo-colors = "4"
ratatui = "0.29"
ratatui-image = "8"
viuer = "0.9"
