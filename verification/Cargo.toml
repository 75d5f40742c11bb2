[package]
name = "media_metadata_plus"
version = "0.1.0"
edition = "2021"
publish = false

[dependencies]
anyhow = "1"
chrono = "0.4"
ffmpeg-next = "*"
jpeg-encoder = "*"
mp4 = "0.14"
rayon = "1"
kamadak-exif = "0.6"
