[package]
name = "tui_pages"
version = "0.1.0"
edition = "2021"
publish = false

[dependencies]
toml = "*"
crossterm = "*"
ratatui = "*"
