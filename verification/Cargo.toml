[package]
name = "estajoj"
version = "0.1.0"
edition = "2021"
publish = false

[dependencies]
rand = "0.8"
chrono = "0.4"
uuid = { version = "1", features = ["v4"] }
crossterm = "0.28"
ratatui = "0.29"

[dev-dependencies]
serde_json = "1"
