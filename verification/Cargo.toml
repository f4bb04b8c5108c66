[package]
name = "pianzo"
version = "0.1.0"
edition = "2021"
publish = false

[dependencies]
sysinfo = { version = "0.30", default-features = false }
serde = { version = "1", features = ["derive"] }
serde_json = "1"
dirs = "5"
ureq = "2"
crossterm = "0.28"
ratatui = "0.29"
tui-textarea = "0.7"
rdev = { version = "0.5", features = ["serialize"] }
