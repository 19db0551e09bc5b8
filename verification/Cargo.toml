[package]
name = "fuse_access_monitor"
version = "0.1.0"
edition = "2021"
publish = false

[dependencies]
chrono = "=0.4.45"
fuser = { version = "=0.16.0", default-features = false, features = ["abi-7-40"] }
iced = { version = "=0.13.1", default-features = false, features = ["tiny-skia"] }
libc = "=0.2.191"
tokio = { version = "=1.54.1", features = ["sync", "rt"] }
