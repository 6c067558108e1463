[package]
name = "one20proof"
version = "0.1.0"
edition = "2021"
publish = false

[dependencies]
regex = "1"
time = "0.3"
chrono = "0.4"
midir = "*"
jack = "*"
crossterm = "*"
ratatui = "*"
subprocess = "*"
