[package]
name = "music_player_rs"
version = "0.1.0"
edition = "2021"
publish = false

[dependencies]
rand = "0.8"
symphonia = { version = "*", features = ["all"] }
cpal = "*"
rtrb = "*"
rustfft = "*"
walkdir = "*"
dirs = "*"
serde = { version = "1", features = ["derive"] }
serde_json = "1"
ureq = "*"
image = { version = "*", default-features = false, features = ["png"] }
