[package]
name = "termpix"
version = "0.1.0"
edition = "2021"
publish = false

[dependencies]
anyhow = "*"
crossterm = "*"
image = "*"
ratatui = "*"
