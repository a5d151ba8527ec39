[package]
name = "vs-queue"
version = "0.1.0"
edition = "2021"
publish = false

[dependencies]
anyhow = "1"
chrono = "0.4"
clap = { version = "4", features = ["derive"] }
crossterm = "*"
ctrlc = "3"
libc = "0.2"
ratatui = "*"
regex = "1"
