[package]
name = "countdown"
version = "0.1.0"
edition = "2021"
publish = false

[dependencies]
color-eyre = "=0.6.5"
crossterm = "=0.28.1"
notify-rust = "=4.18.2"
ratatui = "=0.29.0"
rodio = { version = "0.22", default-features = false, features = ["playback", "wav"] }
