[package]
name = "zombies_weapon_tool"
version = "0.1.0"
edition = "2021"
publish = false

[dependencies]
rand = "=0.10.3"
serde = { version = "1", features = ["derive"] }
serde_json = "1"
crossterm = "=0.29.0"
ratatui = "=0.30.2"
rfd = { version = "0.17", default-features = false, features = ["xdg-portal"] }
winapi = { version = "0.3", features = ["timeapi", "winuser"] }
