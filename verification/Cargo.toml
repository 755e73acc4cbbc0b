[package]
name = "pesticide"
version = "0.1.0"
edition = "2021"
publish = false

[dependencies]
anyhow = "1"
bytes = "1"
crossterm = { version = "=0.25.0", features = ["event-stream"] }
dirs = "5"
futures-util = "0.3"
libc = "0.2"
log = "0.4"
pico-args = "0.5"
serde = { version = "1", features = ["derive"] }
serde_json = "1"
simplelog = "0.12"
thiserror = "1"
tokio = { version = "1", features = ["full"] }
tokio-util = { version = "0.7", features = ["codec"] }
toml = "=0.5.11"
tui = "=0.19.0"

[dev-dependencies]
