[package]
name = "tui_prompts"
version = "0.1.0"
edition = "2021"
publish = false

[dependencies]
unicode-width = "*"
ratatui = "*"
crossterm = "*"
