[package]
name = "sdrtop"
version = "0.1.0"
edition = "2021"
publish = false

[dependencies]
anyhow = "1"
crossbeam-channel = "0.5"
crossterm = "0.28"
hackrf = "*"
libc = "0.2"
num-complex = "0.4"
ratatui = "0.29"
rustfft = "6"
serde = { version = "1", features = ["derive"] }
tokio = { version = "1", features = ["rt-multi-thread", "macros", "time", "sync"] }
