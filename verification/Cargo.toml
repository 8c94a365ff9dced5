[package]
name = "emtk"
version = "0.1.0"
edition = "2021"
publish = false

[dependencies]
ron = "*"
serde = { version = "1", features = ["derive"] }
toml = "*"
tokio = { version = "1", features = ["fs", "rt-multi-thread", "macros", "io-util"] }
clap = { version = "4", features = ["derive"] }
tracing = "*"
tracing-subscriber = "*"
open = "*"
anyhow = "1"
termimad = "*"
