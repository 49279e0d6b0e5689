[package]
name = "tui_document"
version = "0.1.0"
edition = "2021"
publish = false

[dependencies]
ropey = "1.6"
ratatui = { version = "0.29", default-features = false }
