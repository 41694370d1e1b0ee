[package]
name = "skills"
version = "0.1.0"
edition = "2021"
publish = false

[dependencies]
anyhow = "*"
bzip2 = "*"
flate2 = "*"
lzma-rust2 = "*"
ratatui = { version = "*", default-features = false }
crossterm = "*"
serde = { version = "*", features = ["derive"] }
toml = "*"
tar = "*"
zip = { version = "*", default-features = false, features = ["deflate"] }
walkdir = "*"
tui-markdown = "*"
