[package]
name = "alacritty_macos"
version = "0.1.0"
edition = "2021"
publish = false

[dependencies]
toml_edit = "0.22"
objc2 = "0.6"
objc2-foundation = "0.3"
objc2-app-kit = "0.3"
winit = { version = "0.30", default-features = false, features = ["rwh_06", "x11"] }
