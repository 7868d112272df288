[package]
name = "watn"
version = "0.1.0"
edition = "2021"
publish = false

[dependencies]
serde = { version = "1", features = ["derive"] }
serde_json = "1"
toml = "0.8"
unicode-width = "0.2"
reqwest = { version = "0.12", default-features = false, features = ["blocking", "json", "rustls-tls"] }
crossterm = "0.28"
ratatui = "0.29"
clap = { version = "4", features = ["derive"] }
clap_complete = "4"
ctrlc = "3"
atty = "0.2"
