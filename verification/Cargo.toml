[package]
name = "minesweeper"
version = "0.1.0"
edition = "2021"
publish = false

[dependencies]
anyhow = "1"
crossterm = { version = "0.28", features = ["event-stream"] }
futures = "0.3"
rand = "0.9"
ratatui = "0.29"
tokio = { version = "1", features = ["macros", "rt-multi-thread", "time"] }
