[package]
name = "opnsense-dashboard"
version = "0.1.0"
edition = "2021"
publish = false

[dependencies]
backtrace = "*"
dirs = "*"
roxmltree = "*"
serde = { version = "*", features = ["derive"] }
serde_json = "*"
serde_yaml = "*"
ssh2 = "*"
terminal_size = "*"
