[package]
name = "subtitle_watcher"
version = "0.1.0"
edition = "2021"
publish = false

[dependencies]
dafont = "*"
iced = { version = "0.13", default-features = false, features = ["tiny-skia", "tokio"] }
rfd = "*"
subparse = "*"
