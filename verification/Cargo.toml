[package]
name = "outliner"
version = "0.1.0"
edition = "2021"
publish = false

[dependencies]
uuid = { version = "1", features = ["v4"] }
crossterm = "0.27"
ratatui = "0.26"
