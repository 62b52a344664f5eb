[package]
name = "jex"
version = "0.1.0"
edition = "2021"
publish = false

[dependencies]
crossterm = "=0.27.0"
ratatui = "=0.26.3"
serde_json = { version = "=1.0.154", features = ["preserve_order"] }
thousands = "=0.2.0"
tui-input = "=0.8.0"
