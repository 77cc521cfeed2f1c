[package]
name = "gdio"
version = "0.1.0"
edition = "2021"
publish = false

[dependencies]
anyhow = "1"
arboard = { version = "3", default-features = false }
clap = { version = "4", features = ["derive"] }
clap_complete = "4"
console = "0.15"
crossterm = "0.28"
dialoguer = { version = "0.11", features = ["fuzzy-select"] }
dirs = "5"
flate2 = "1"
futures-util = "0.3"
getrandom = "0.2"
indicatif = "0.17"
ratatui = "0.29"
reqwest = { version = "0.12", default-features = false, features = ["json", "stream", "rustls-tls"] }
serde = { version = "1", features = ["derive"] }
serde_json = "1"
tempfile = "3"
timeago = "0.4"
tokio = { version = "1", features = ["rt-multi-thread", "macros", "fs", "io-util", "process", "time"] }
toml = "0.8"
unicode-width = "0.2"
walkdir = "2"
zip = { version = "2", default-features = false, features = ["deflate"] }
