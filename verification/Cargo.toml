[package]
name = "bottom"
version = "0.1.0"
edition = "2021"
publish = false

[dependencies]
strip-ansi-escapes = "*"
crossterm = "*"
ctrlc = "*"
anyhow = "*"
dirs = "*"
toml_edit = "*"
uptime_lib = "*"
