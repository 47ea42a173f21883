[package]
name = "peter_hook"
version = "0.1.0"
edition = "2021"
publish = false

[dependencies]
anyhow = "*"
clap = { version = "*", features = ["derive"] }
clap_complete = "*"
glob = "*"
serde = { version = "*", features = ["derive"] }
toml = "*"
