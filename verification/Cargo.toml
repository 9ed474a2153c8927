[package]
name = "nbtscan"
version = "0.1.0"
edition = "2021"
publish = false

[dependencies]
chrono = "*"
flate2 = "*"
lazy_static = "*"
phf = { version = "*", features = ["macros"] }
reqwest = { version = "*", features = ["blocking", "json"] }
serde = { version = "*", features = ["derive"] }
shellexpand = "*"
walkdir = "*"
