[package]
name = "drop_term"
version = "0.1.0"
edition = "2021"
publish = false

[dependencies]
alacritty_terminal = "0.26"
dirs = "*"
env_logger = "*"
i18n-embed = { version = "*", features = ["fluent-system", "desktop-requester"] }
i18n-embed-fl = "*"
log = "*"
ron = "*"
rust-embed = "*"
serde = { version = "*", features = ["derive"] }
tokio = { version = "*", features = ["sync", "time", "rt", "signal"] }
