[package]
name = "avif_converter"
version = "0.1.0"
edition = "2021"
publish = false

[dependencies]
image = "0.24"
kamadak-exif = "0.5"
ravif = { version = "0.11", default-features = false, features = ["threading"] }
rgb = "0.8"
bytes = "1"
actix-web = { version = "4", default-features = false, features = ["macros"] }
reqwest = { version = "0.12", default-features = false, features = ["rustls-tls"] }
