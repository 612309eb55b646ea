[package]
name = "fargo"
version = "0.1.0"
edition = "2021"
publish = false

[dependencies]
clap = "2"
failure = "0.1"
itertools = "0.10"
notify = "4"
serde = { version = "1", features = ["derive"] }
serde_json = "1"
toml = "0.5"
uname = "0.1"
