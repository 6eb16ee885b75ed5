[package]
name = "tmw"
version = "0.1.0"
edition = "2021"
publish = false

[dependencies]
anyhow = "*"
clap = { version = "*", features = ["derive"] }
confy = { version = "*", default-features = false, features = ["yaml_conf"] }
serde = { version = "*", features = ["derive"] }
