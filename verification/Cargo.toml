[package]
name = "pic2webp"
version = "1.7.0"
edition = "2021"
publish = false

[dependencies]
base64 = "0.22"
image = { version = "0.25", default-features = false, features = ["bmp", "gif", "jpeg", "png", "tiff", "webp"] }
serde = { version = "1", features = ["derive"] }
tauri = { version = "2", default-features = false }
walkdir = "2"
webp = { version = "0.3", default-features = false }
which = "*"
