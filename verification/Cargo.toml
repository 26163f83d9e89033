[package]
name = "sshdb"
version = "0.1.0"
edition = "2021"
publish = false

[dependencies]
anyhow = "*"
crossterm = "*"
directories = "*"
fuzzy-matcher = "*"
ratatui = "*"
serde = { version = "*", features = ["derive"] }
toml = "*"
