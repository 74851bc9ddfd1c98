[package]
name = "kuon_cli"
version = "0.1.0"
edition = "2021"
publish = false

[dependencies]
anyhow = "*"
base64 = "0.13"
chrono = "*"
clap = { version = "*", features = ["derive"] }
colored = "*"
kuon = "*"
reqwest = { version = "*", default-features = false }
serde = { version = "*", features = ["derive"] }
serde_json = "*"
termion = "*"
textwrap = "*"
tokio = { version = "*", features = ["full"] }
tui = "*"
unicode-width = "*"
