[package]
name = "panes"
version = "0.1.0"
edition = "2021"
publish = false

[dependencies]
anyhow = "1"
either = "1"
itertools = "0.14"
ratatui = { version = "0.29", default-features = false }
strum = { version = "0.26", features = ["derive"] }
unicase = "2"
