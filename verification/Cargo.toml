[package]
name = "gcal-tui"
version = "0.1.0"
edition = "2021"
publish = false

[dependencies]
chrono = "0.4"
ratatui = "0.29"
serde = { version = "1", features = ["derive"] }
unicode-width = "0.2"
ureq = { version = "2", features = ["json"] }
zbus = "5"
