[package]
name = "gitrs"
version = "0.1.0"
edition = "2021"
publish = false

[dependencies]
regex = "*"
strip-ansi-escapes = "*"
crossterm = "*"
ratatui = "*"
clap = { version = "*", features = ["derive"] }
atty = "*"
