[package]
name = "md2md"
version = "0.1.0"
edition = "2021"
publish = false

[dependencies]
regex = "1"
clap = { version = "4", features = ["derive", "cargo"] }
atty = "0.2"
crossterm = "*"
ratatui = "*"

[dev-dependencies]
tempfile = "3"
