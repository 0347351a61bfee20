[package]
name = "squirrel"
version = "0.1.0"
edition = "2021"
publish = false

[dependencies]
chrono = "*"
clap = "*"
glob = "*"
ignore = "*"
notify = "*"
rand = "*"
rusqlite = { version = "*", features = ["bundled"] }
