[package]
name = "save_me_files"
version = "0.1.0"
edition = "2021"
publish = false

[dependencies]
anyhow = "1"
byte-unit = "4"
clap = { version = "4", features = ["derive"] }
env_logger = "*"
fs4 = "*"
log = "0.4"
rayon = "1"
tempfile = "3"
uuid = { version = "1", features = ["v4"] }
walkdir = "2"
