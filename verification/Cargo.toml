[package]
name = "check_external_types"
version = "0.1.0"
edition = "2021"
publish = false

[dependencies]
anyhow = "1"
cargo_metadata = "*"
clap = { version = "4", features = ["derive"] }
owo-colors = "*"
pest = "*"
rustdoc-types = "*"
serde = { version = "1", features = ["derive"] }
serde_json = "1"
toml = "*"
