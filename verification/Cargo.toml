[package]
name = "ldos_tables"
version = "0.1.0"
edition = "2021"
publish = false

[dependencies]
anyhow = "1"
capture-it = "*"
chrono = { version = "0.4", features = ["serde"] }
clap = { version = "4", features = ["derive"] }
cpu-time = "1"
evalexpr = "*"
itertools = "*"
kanal = "*"
serde = { version = "1", features = ["derive"] }
serde_yaml = "0.9"
spin_sleep = "1"
