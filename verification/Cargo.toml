[package]
name = "trinci_cli"
version = "0.1.0"
edition = "2021"
publish = false

[dependencies]
clap = { version = "=3.2.25", features = ["cargo"] }
glob = "=0.3.4"
hex = "=0.4.3"
indicatif = "0.17"
lazy_static = "=1.5.1"
rand = "=0.8.8"
rustyline = "=9.1.2"
serde = { version = "=1.0.229", features = ["derive"] }
serde_json = "=1.0.154"
serde-value = "=0.7.0"
toml = "=0.5.11"
trinci-core = "=0.1.0"
ureq = "=2.12.1"
