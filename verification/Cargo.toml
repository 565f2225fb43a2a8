[package]
name = "lesson_viewer"
version = "0.1.0"
edition = "2021"
publish = false

[dependencies]
crossterm = "*"
pulldown-cmark = "*"
ratatui = "*"
serde = { version = "*", features = ["derive"] }
serde_json = "*"
syntect = { version = "*", default-features = false, features = ["default-fancy"] }
walkdir = "*"
