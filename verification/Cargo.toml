[package]
name = "ta_assets"
version = "0.1.0"
edition = "2021"
publish = false

[dependencies]
bincode = "1.3"
bmp = "0.5"
clap = { version = "4", features = ["derive"] }
