[package]
name = "font_catalog"
version = "0.1.0"
edition = "2021"

[dependencies]
ttf-parser = "*"
walkdir = "*"
serde = { version = "*", features = ["derive"] }
