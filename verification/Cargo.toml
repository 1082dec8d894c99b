[package]
name = "cmux_diff"
version = "0.1.0"
edition = "2021"
publish = false

[dependencies]
anyhow = "1"
thiserror = "2"
termion = "4"
ratatui = { version = "0.29", default-features = false, features = ["termion"] }
