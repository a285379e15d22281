[package]
name = "tasdview"
version = "0.1.0"
edition = "2021"
publish = false

[dependencies]
clap = { version = "=4.6.7", features = ["derive"] }
color-eyre = "=0.6.5"
crossterm = "=0.28.1"
ratatui = "=0.29.0"
tasd = "=0.6.0"
