[package]
name = "binaural"
version = "0.1.0"
edition = "2021"
publish = false

[dependencies]
anyhow = "1"
clap = { version = "4", features = ["derive"] }
directories = "6"
kdl = "6"
ratatui = "*"
rodio = "*"
signal-hook = "0.3"
