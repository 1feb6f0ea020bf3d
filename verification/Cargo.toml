[package]
name = "dstl"
version = "0.1.0"
edition = "2021"
publish = false

[dependencies]
fuzzy-matcher = "=0.3.7"
serde_json = "1"
serde = { version = "1", features = ["derive"] }
ratatui = "0.29"
crossterm = "0.28"
eyre = "0.6"
color-eyre = "0.6"
dirs = "*"
libc = "0.2"
nerd-font-symbols = "*"
rune-cfg = "*"
