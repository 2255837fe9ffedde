[package]
name = "wazuh_agent_installer"
version = "0.1.0"
edition = "2021"
publish = false

[dependencies]
serde = { version = "1", features = ["derive"] }
serde_json = "1"
tokio = { version = "1", features = ["process", "io-util", "rt", "macros", "time", "sync"] }
dirs = "6"
libc = "0.2"
