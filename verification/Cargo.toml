[package]
name = "ils"
version = "0.1.0"
edition = "2021"
publish = false

[dependencies]
unicode-width = "=0.2.2"
chrono = { version = "=0.4.45", features = ["unstable-locales"] }
anyhow = "=1.0.104"
clap = { version = "=4.6.7", features = ["derive"] }
ext4 = "=0.8.0"
path-clean = "=1.0.1"
terminal_size = "=0.4.4"
