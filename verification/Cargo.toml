[package]
name = "dispatch"
version = "0.1.0"
edition = "2021"
publish = false

[dependencies]
chrono = { version = "0.4", default-features = false, features = ["clock", "std"] }
clap = { version = "4", features = ["derive"] }
color-eyre = { version = "0.6", default-features = false }
getset = "0.1"
log = "0.4"
ratatui = "0.29"
termimad = "*"
tokio = { version = "1", features = ["rt-multi-thread", "macros", "fs"] }
