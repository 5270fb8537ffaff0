[package]
name = "auth0-cli"
version = "0.1.0"
edition = "2021"
publish = false

[dependencies]
ansi_term = "0.12"
crossbeam = "0.8"
dirs = "2"
jsonwebtoken = "7"
prettytable-rs = "0.8"
reqwest = { version = "0.11", features = ["blocking", "json"] }
serde = { version = "1", features = ["derive"] }
serde_json = "1"
structopt = "0.3"
toml = "0.5"
