[package]
name = "windows_task"
version = "0.1.0"
edition = "2021"
publish = false

[dependencies]
jiff = "*"
quick-xml = "*"
uuid = "*"
serde = { version = "*", features = ["derive"] }
serde_json = "*"
toml = "*"
serde-saphyr = "*"
thiserror = "*"
clap = { version = "*", features = ["derive"] }
