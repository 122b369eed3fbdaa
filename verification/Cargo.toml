[package]
name = "aoide_library"
version = "0.1.0"
edition = "2021"
publish = false

[dependencies]
blake3 = "=1.8.7"
walkdir = "=2.5.0"
mime_guess = "=2.0.5"
url = "=2.5.8"
metaflac = "=0.2.8"
chrono = { version = "=0.4.45", default-features = false, features = ["std"] }
id3 = "1"
