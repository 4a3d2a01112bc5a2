[package]
name = "norgdo"
version = "0.1.0"
edition = "2021"
publish = false

[dependencies]
chrono = { version = "0.4", features = ["serde"] }
color-eyre = "0.6"
crossterm = "*"
directories = "*"
dirs = "*"
ratatui = "*"
serde = { version = "1", features = ["derive"] }
uuid = { version = "1", features = ["v4"] }
