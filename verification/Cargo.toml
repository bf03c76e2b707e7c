[package]
name = "dynhost"
version = "0.1.0"
edition = "2021"
publish = false

[dependencies]
chrono = "*"
clap = "2"
fern = "*"
log = "*"
reqwest = { version = "*", default-features = false }
serde = { version = "*", features = ["derive"] }
tokio = { version = "*", features = ["rt-multi-thread", "macros", "time"] }
toml = "*"
