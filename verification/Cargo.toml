[package]
name = "plotline"
version = "0.1.0"
edition = "2021"
publish = false

[dependencies]
uuid = { version = "1", features = ["v4"] }
clap = { version = "4", features = ["derive", "env"] }
dirs = "*"
once_cell = "1"
serde = { version = "1", features = ["derive"] }
serde_yaml = "0.9"
strum_macros = "*"
thiserror = "1"
