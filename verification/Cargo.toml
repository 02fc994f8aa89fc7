[package]
name = "reportal"
version = "0.1.0"
edition = "2021"
publish = false

[dependencies]
clap = { version = "=4.6.7", features = ["derive"] }
comfy-table = "=8.0.1"
dialoguer = { version = "=0.12.0", features = ["fuzzy-select"] }
dirs = "=7.0.0"
junction = "=2.1.0"
open = "=5.4.5"
owo-colors = "=4.4.0"
rustix = { version = "=1.1.6", features = ["process"] }
shellexpand = "=3.1.2"
thiserror = "=2.0.21"
serde = { version = "=1.0.229", features = ["derive"] }
toml = "=1.1.8"
