[package]
name = "de"
version = "0.1.0"
edition = "2021"
publish = false

[dependencies]
chrono = "0.4"
clap = { version = "4", features = ["derive"] }
crossterm = "*"
ratatui = "*"
toml_edit = "0.22"
unicode-width = "0.2"
