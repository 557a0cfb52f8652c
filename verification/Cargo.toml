[package]
name = "png_reader"
version = "0.1.0"
edition = "2021"
publish = false

[dependencies]
byteorder = "=1.5.0"
flate2 = "=1.1.10"
iced = { version = "=0.14.0", default-features = false, features = ["x11", "tiny-skia", "thread-pool"] }
