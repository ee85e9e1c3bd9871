[package]
name = "fuzzy_pick"
version = "0.1.0"
edition = "2021"
publish = false

[dependencies]
fuzzy-matcher = "0.3"
termion = "1.5"
tui = { version = "0.19", default-features = false, features = ["termion"] }
