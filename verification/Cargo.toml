[package]
name = "maolan_video"
version = "0.1.0"
edition = "2021"
publish = false

[dependencies]
iced = { version = "=0.14.0", default-features = false, features = ["wgpu", "advanced", "image-without-codecs", "thread-pool", "x11"] }
iced_wgpu = { version = "=0.14.0", default-features = false, features = ["image"] }
ffmpeg-next = { version = "=8.1.0" }
serde = { version = "1", features = ["derive"] }
