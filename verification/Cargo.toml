[package]
name = "music_player"
version = "0.1.0"
edition = "2021"
publish = false

[dependencies]
rodio = "0.17"
serde_json = "1"
walkdir = "2"
