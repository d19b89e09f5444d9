[package]
name = "basic_status_message"
version = "0.1.0"
edition = "2021"
publish = false

[dependencies]
chrono = "*"
clap = { version = "*", features = ["derive"] }
inotify = "*"
nix = { version = "*", features = ["poll"] }
