[package]
name = "ctk_suggest"
version = "0.1.0"
edition = "2021"
publish = false

[dependencies]
chrono = "0.4"
rand = "0.8"
shlex = "1"
sublime_fuzzy = "0.7"
dialoguer = { version = "0.10", features = ["history"] }
walkdir = "2"

[dev-dependencies]
serde_json = "1"
