[package]
name = "rust-widgets"
version = "0.1.0"
edition = "2021"
publish = false

[dependencies]
chrono = "*"
serde = { version = "*", features = ["derive"] }
toml = "*"
dirs = "*"
directories = "*"
sysinfo = "*"
clap = { version = "*", features = ["derive"] }
tokio = { version = "*", features = ["full"] }
zbus = "*"
tracing = "*"
tracing-subscriber = { version = "*", features = ["env-filter"] }
gtk4 = "*"
gtk4-layer-shell = "*"
