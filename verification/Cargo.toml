[package]
name = "pathdb"
version = "0.1.0"
edition = "2021"
publish = false

[dependencies]
dashmap = "*"
chrono = { version = "*", features = ["serde"] }
serde = { version = "*", features = ["derive"] }
serde_json = "*"
thiserror = "*"
nix = { version = "*", features = ["mount"] }
