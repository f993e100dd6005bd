[package]
name = "sigscan"
version = "0.1.0"
edition = "2021"
publish = false

[dependencies]
crossterm = "=0.29.0"
ilhook = "=2.3.0"
thiserror = "=2.0.21"
winapi = { version = "=0.3.9", features = ["consoleapi", "minwindef", "processthreadsapi", "psapi"] }
windows = "=0.58.0"
