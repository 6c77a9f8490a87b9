[package]
name = "vibe"
version = "0.1.0"
edition = "2021"
publish = false

[dependencies]
uuid = { version = "1", features = ["v4"] }
serde = { version = "1", features = ["derive"] }
serde_json = "1"
thiserror = "2"
anyhow = "1"
hound = "3"
rustfft = "6"
cpal = "*"
core-foundation = "*"
core-graphics = "*"
accessibility-sys = "*"
objc2 = "*"
objc2-app-kit = "*"
objc2-foundation = "*"
