[package]
name = "band_lighthshow"
version = "0.1.0"
edition = "2021"
publish = false

[dependencies]
anyhow = "=1.0.104"
clap = { version = "=4.6.7", features = ["derive"] }
crossterm = "=0.29.0"
ftdi-nusb = { version = "=0.3.0", features = ["tokio"] }
nusb = "=0.2.9"
ratatui = "=0.30.2"
ron = "=0.12.3"
serde = { version = "=1.0.229", features = ["derive"] }
tokio = { version = "=1.54.1", features = ["rt-multi-thread", "macros", "time", "sync"] }
