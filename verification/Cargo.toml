[package]
name = "salstatistikk"
version = "0.1.0"
edition = "2021"
publish = false

[dependencies]
chrono = "*"
chrono-tz = "*"
clap = { version = "*", features = ["derive"] }
csv = "*"
itertools = "*"
json = "*"
ratatui = "0.29"
rusqlite = { version = "*", features = ["array", "bundled"] }
tui-textarea = "0.7"
