[package]
name = "quarto_term"
version = "0.1.0"
edition = "2021"
publish = false

[dependencies]
avt = "*"
portable-pty = "*"
rand = "0.8"
regex = "1"
serde = { version = "1", features = ["derive"] }
serde_json = "1"
