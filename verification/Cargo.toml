[package]
name = "gameserver_rs"
version = "0.1.0"
edition = "2021"
publish = false

[dependencies]
bcrypt = "*"
mime_guess = "*"
serde = { version = "*", features = ["derive"] }
serde_json = "*"
walkdir = "*"
hostname = "*"
