[package]
name = "tmux-pane-border"
version = "0.1.0"
edition = "2021"
publish = false

[dependencies]
clap = { version = "4.5", features = ["derive"] }
dirs = "6"
nix = { version = "0.29", features = ["event", "fs", "ioctl", "poll", "process", "signal", "term"] }
serde = { version = "1", features = ["derive"] }
signal-hook = "0.3"
toml = "0.8"
