[package]
name = "lib_game_detector"
version = "0.1.0"
edition = "2021"
publish = false

[dependencies]
itertools = "*"
steam_shortcuts_util = "*"
rusqlite = "*"
walkdir = "2"
dirs = "*"
serde = { version = "1", features = ["derive"] }
thiserror = "*"

[dev-dependencies]
nom = "8"
