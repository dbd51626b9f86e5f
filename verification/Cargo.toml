[package]
name = "yunzii_b75_tui"
version = "0.1.0"
edition = "2021"
publish = false

[dependencies]
image = { version = "0.25", default-features = false, features = ["png", "jpeg", "gif"] }
clap = { version = "4", features = ["derive"] }
chrono = "0.4"
nix = { version = "0.30", features = ["fs", "poll"] }
ratatui = "0.29"
