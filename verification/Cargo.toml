[package]
name = "rigel"
version = "0.1.0"
edition = "2021"
publish = false

[dependencies]
russh = "*"
russh-sftp = "*"
tokio = { version = "1", features = ["full"] }
ratatui = "*"
crossterm = "*"
directories = "*"
serde = { version = "1", features = ["derive"] }
thiserror = "*"
toml = "*"
anyhow = "1"
