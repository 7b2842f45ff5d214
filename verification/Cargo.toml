[package]
name = "rustream"
version = "0.1.0"
edition = "2021"
publish = false

[dependencies]
iced = { version = "=0.13.1", default-features = false, features = ["tiny-skia"] }
rfd = "=0.17.2"
which = "=8.0.6"
