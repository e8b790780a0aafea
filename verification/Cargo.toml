[package]
name = "localcode"
version = "0.1.0"
edition = "2021"
publish = false

[dependencies]
anyhow = "1"
clap = { version = "4", features = ["derive"] }
crossterm = "*"
ratatui = "*"
dirs = "*"
flate2 = "1"
tar = "*"
zip = { version = "*", default-features = false, features = ["deflate"] }
futures-util = "0.3"
glob = "0.3"
ignore = "*"
indicatif = "*"
inquire = "*"
landlock = "*"
libc = "0.2"
regex = "1"
reqwest = { version = "0.12", default-features = false, features = ["json", "stream", "blocking", "rustls-tls"] }
rusqlite = { version = "*", features = ["bundled"] }
scraper = "*"
serde = { version = "1", features = ["derive"] }
serde_json = "1"
similar = "2"
sysinfo = "*"
tokio = { version = "1", features = ["full"] }
toml = "*"
tracing-subscriber = { version = "0.3", features = ["env-filter"] }
urlencoding = "2"
