[package]
name = "process_watcher"
version = "0.1.0"
edition = "2021"
publish = false

[dependencies]
ratatui = "*"
crossterm = "*"
tui-input = "*"
tokio = { version = "*", features = ["full"] }
libc = "*"
cli-log = "*"
