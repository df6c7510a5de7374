[package]
name = "phux_core_logic"
version = "0.1.0"
edition = "2021"
publish = false

[dependencies]
chrono = { version = "=0.4.45", features = ["serde"] }
getrandom = "=0.2.17"
hex = "=0.4.3"
libghostty-vt = "=0.2.2"
ratatui = "=0.30.2"
rustix = "=1.1.6"
serde = { version = "=1.0.229", features = ["derive"] }
serde_json = "=1.0.154"
sha2 = "=0.10.9"
subtle = "=2.6.1"
tempfile = "=3.27.0"
thiserror = "=2.0.21"
tokio = { version = "=1.54.1", features = ["macros", "process", "rt", "sync", "time"] }
toml = "=0.9.12"
tracing = "=0.1.44"
unicode-width = "=0.2.3"
