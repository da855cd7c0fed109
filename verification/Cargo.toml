[package]
name = "ramen_timer"
version = "0.1.0"
edition = "2021"
publish = false

[dependencies]
clap = { version = "4", features = ["derive"] }
crossterm = "*"
notify-rust = "4"
ratatui = "*"
