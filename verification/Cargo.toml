[package]
name = "reflect_tui"
version = "0.1.0"
edition = "2021"
publish = false

[dependencies]
unicode-width = "=0.2.0"
unicode-segmentation = "=1.13.3"
diffy = "=0.4.2"
base64 = "=0.22.1"
pathdiff = "=0.2.3"
ratatui = "=0.29.0"
crossterm = "=0.28.1"
arboard = { version = "=3.7.0", default-features = false }
dirs = "=6.0.0"
toml = "=0.8.23"
serde_json = "1"
