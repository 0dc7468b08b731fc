[package]
name = "windirparse"
version = "0.1.0"
edition = "2021"
publish = false

[dependencies]
chrono = "0.4"
dateparser = "0.2"
futures = "0.3"
iced = { version = "0.13", default-features = false, features = ["tiny-skia"] }
rfd = { version = "0.15", default-features = false, features = ["xdg-portal", "tokio"] }
