[package]
name = "iced_servo"
version = "0.1.0"
edition = "2021"
publish = false

[dependencies]
url = "=2.5.8"
urlencoding = "=2.1.3"
iced = { version = "=0.14.0", default-features = false, features = ["advanced", "tokio", "tiny-skia", "x11", "image-without-codecs"] }
reqwest = { version = "=0.12.28", default-features = false, features = ["rustls-tls"] }
tokio = { version = "=1.54.1", features = ["sync"] }
keyboard-types = "=0.8.3"
dpi = "=0.1.2"
euclid = "=0.22.14"
litehtml = { version = "=0.2.6", features = ["pixbuf"] }
