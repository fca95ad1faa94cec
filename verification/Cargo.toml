[package]
name = "granite"
version = "0.1.0"
edition = "2021"
publish = false

[dependencies]
anyhow = "1"
async-stream = "0.3"
async-trait = "0.1"
clap = { version = "4", features = ["derive"] }
cliclack = "0.3"
crossterm = { version = "0.28", features = ["event-stream"] }
futures-core = "0.3"
futures-util = "0.3"
ignore = "0.4"
ratatui = "0.29"
ratatui-core = "0.1"
regex = "1"
reqwest = { version = "0.12", default-features = false, features = ["json", "stream", "rustls-tls"] }
serde = { version = "1", features = ["derive"] }
serde_json = "1"
thiserror = "2"
tokio = { version = "1", features = ["full"] }
toml = "0.8"
tui-markdown = { version = "0.3", default-features = false }

[dev-dependencies]
tempfile = "3"
