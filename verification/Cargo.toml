[package]
name = "tui_big_text"
version = "0.1.0"
edition = "2021"
publish = false

[dependencies]
derive_builder = "0.20"
font8x8 = "0.3"
ratatui = { version = "0.26", default-features = false }
