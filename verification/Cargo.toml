[package]
name = "noise_graph"
version = "0.1.0"
edition = "2021"
publish = false

[dependencies]
libnoise = "*"
serde = { version = "1", features = ["derive"] }
serde_json = "1"
ron = "*"
