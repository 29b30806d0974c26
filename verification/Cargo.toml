[package]
name = "mooncell"
version = "0.3.1"
edition = "2021"
publish = false

[dependencies]
chrono = "*"
sysinfo = "*"
crossterm = "*"
ratatui = "*"
