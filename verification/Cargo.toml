[package]
name = "shiki-tui"
version = "0.1.0"
edition = "2021"
publish = false

[dependencies]
anyhow = "1"
arboard = "3"
base64 = "0.22"
chrono = "0.4"
crossterm = "0.29"
directories = "*"
libc = "0.2"
png = "*"
ratatui = "0.30"
ratatui-textarea = "0.9"
