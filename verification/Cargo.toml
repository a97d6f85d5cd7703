[package]
name = "llm_top"
version = "0.1.0"
edition = "2021"
publish = false

[dependencies]
dirs = "5"
ratatui = "0.29"
serde = { version = "1", features = ["derive"] }
serde_json = "1"
sysinfo = "0.32"
