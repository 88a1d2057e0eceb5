[package]
name = "pine_audio"
version = "0.1.0"
edition = "2021"
publish = false

[dependencies]
rand = "0.8"
walkdir = "2"
symphonium = "*"
clap = { version = "4", features = ["derive"] }
rodio = "0.20"
firewheel = "*"
