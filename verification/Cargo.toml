[package]
name = "slf"
version = "0.1.0"
edition = "2021"
publish = false

[dependencies]
anyhow = "1"
clap = { version = "4", features = ["derive"] }
dirs = "*"
serde = { version = "1", features = ["derive"] }
shellexpand = "*"
time = { version = "0.3", features = ["formatting", "parsing"] }
toml = "*"
