[package]
name = "iced_webview"
version = "0.1.0"
edition = "2021"
publish = false

[dependencies]
url = "=2.5.8"
reqwest = { version = "=0.12.28", default-features = false, features = ["rustls-tls"] }
iced = { version = "=0.14.0", default-features = false, features = ["advanced", "image-without-codecs", "tiny-skia", "tokio", "x11"] }
