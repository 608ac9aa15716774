[package]
name = "detective"
version = "0.2.0"
edition = "2021"
publish = false

[dependencies]
clap = { version = "*", features = ["derive"] }
owo-colors = "*"
serde = { version = "*", features = ["derive"] }
thiserror = "*"
toml = "*"
