[package]
name = "subtitle_fast"
version = "0.1.0"
edition = "2021"
publish = false

[dependencies]
serde = { version = "1", features = ["derive"] }
toml = "*"
directories = "*"
clap = { version = "4", features = ["derive"] }
indicatif = "*"
tokio = { version = "1", features = ["rt-multi-thread", "macros", "fs", "io-util"] }
futures-util = "0.3"
futures-channel = "0.3"
reqwest = { version = "0.12", default-features = false, features = ["stream"] }
