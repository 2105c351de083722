[package]
name = "tuiplay"
version = "0.1.0"
edition = "2021"
publish = false

[dependencies]
anyhow = "1"
crossterm = "0.28"
image = { version = "0.25", default-features = false, features = ["bmp", "gif", "jpeg", "png", "webp"] }
lofty = "0.22"
ratatui = "0.29"
ratatui-image = { version = "3", default-features = false }
serde_json = { version = "1", features = ["float_roundtrip"] }
souvlaki = { version = "0.8", default-features = false, features = ["use_dbus"] }
