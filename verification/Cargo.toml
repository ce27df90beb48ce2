[package]
name = "senso"
version = "0.1.0"
edition = "2021"
publish = false

[dependencies]
clap = { version = "4", features = ["derive"] }
crossterm = "0.27"
itertools = "0.11"
lazy_static = "1"
lm-sensors = "*"
ratatui = "0.23"
