[package]
name = "coquerythmo_ui"
version = "0.1.0"
edition = "2021"
publish = false

[dependencies]
unicode-segmentation = "1"
resvg = "*"
image = { version = "*", default-features = false, features = ["png"] }
wgpu = "*"
windows-sys = { version = "*", features = ["Win32_UI_WindowsAndMessaging"] }
