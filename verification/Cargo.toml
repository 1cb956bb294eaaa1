[package]
name = "candadolib"
version = "1.0.2"
edition = "2021"
publish = false

[dependencies]
aes-gcm = "0.10"
anyhow = "1"
argon2 = "0.5"
base64 = "0.22"
clap = { version = "4", features = ["derive"] }
color-eyre = "0.6"
crossterm = "0.28"
fuzzy-matcher = "0.3"
rand = "0.8"
ratatui = "0.29"
rpassword = "7"
rusqlite = "0.32"
serde = { version = "1", features = ["derive"] }
serde_json = "1"
unicode-width = "0.2"
