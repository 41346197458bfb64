[package]
name = "epubstream"
version = "0.1.0"
edition = "2021"
publish = false

[dependencies]
base64 = "0.22"
epub = "2"
md5 = "0.7"
mime_guess = "2"
serde = { version = "1", features = ["derive"] }
tauri = { version = "2", default-features = false }
urlencoding = "2"
zip = { version = "*", default-features = false, features = ["deflate"] }
