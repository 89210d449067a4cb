[package]
name = "epistem"
version = "0.1.0"
edition = "2021"
publish = false

[dependencies]
petgraph = "*"
serde = { version = "1", features = ["derive"] }
serde_json = "1"
serde_yaml_ng = "*"
clap = { version = "4", features = ["derive"] }
thiserror = "*"
