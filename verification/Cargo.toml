[package]
name = "timon"
version = "0.1.0"
edition = "2021"
publish = false

[dependencies]
anyhow = "1"
serde = { version = "1", features = ["derive"] }
serde_json = "1"
toml = "*"
rusqlite = { version = "*", features = ["bundled"] }
tokio = { version = "1", features = ["full"] }
russh = "*"
russh-sftp = "*"
portable-pty = "*"
alacritty_terminal = "*"
libc = "0.2"
