[package]
name = "diskette"
version = "0.1.0"
edition = "2021"
publish = false

[dependencies]
anyhow = "=1.0.104"
dirs = "=7.0.0"
gtk4 = { version = "=0.11.5", features = ["v4_10"] }
libadwaita = { version = "=0.9.2", features = ["v1_4"] }
mimalloc = "=0.1.52"
