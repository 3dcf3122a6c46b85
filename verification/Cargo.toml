[package]
name = "livescope"
version = "0.1.0"
edition = "2021"
publish = false

[dependencies]
anyhow = "1"
clap = { version = "4", features = ["derive"] }
crossterm = "0.27"
rand = "0.8"
sysinfo = "0.29"
tokio = { version = "1", features = ["macros", "rt-multi-thread", "time"] }
