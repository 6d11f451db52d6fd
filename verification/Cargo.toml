[package]
name = "timecat"
version = "0.1.0"
edition = "2021"
publish = false

[dependencies]
chrono = "0.4"
crossterm = "*"
serde_json = "1"
unicode-width = "*"
