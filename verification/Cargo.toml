[package]
name = "my_open_claude"
version = "0.1.0"
edition = "2021"
publish = false

[dependencies]
textwrap = "0.16"
syntect = { version = "5", default-features = false, features = ["default-fancy"] }
chrono = "0.4"
ratatui = "0.30"
crossterm = "0.29"
serde_json = "1"
arboard = { version = "3", default-features = false }
opener = "0.7"
log = "0.4"
tokio = { version = "1", features = ["rt-multi-thread"] }
tokio-util = "0.7"
