[package]
name = "lx"
version = "0.1.0"
edition = "2021"
publish = false

[dependencies]
unicode-width = "*"
chrono = "0.4"
clap = { version = "4", features = ["derive"] }
colored = "*"
serde = { version = "1", features = ["derive"] }
toml = "*"
dirs = "*"
libc = "0.2"
