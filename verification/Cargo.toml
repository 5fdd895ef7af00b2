[package]
name = "agent_sessions"
version = "0.1.0"
edition = "2021"
publish = false

[dependencies]
serde = { version = "1", features = ["derive"] }
serde_json = "1"
sysinfo = "0.31"
dirs = "5"
log = "0.4"
once_cell = "1"
