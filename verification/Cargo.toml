[package]
name = "barduck"
version = "0.1.0"
edition = "2021"
publish = false

[dependencies]
anyhow = "1"
chrono = "=0.4.45"
clap = { version = "=4.6.7", features = ["derive"] }
croner = "=4.0.2"
crossterm = "=0.29.0"
humantime = "=2.4.0"
humantime-serde = "1"
process-wrap = { version = "=10.0.1", features = ["tokio1"] }
pulldown-cmark = { version = "=0.13.6", default-features = false, features = ["html"] }
ratatui = "=0.30.2"
serde = { version = "1", features = ["derive"] }
serde_json = "1"
serde_urlencoded = "=0.7.1"
tokio = { version = "=1.54.1", features = ["rt-multi-thread", "macros", "sync", "time", "process", "io-util", "signal", "net"] }
toml = "=0.9.8"
tracing = "0.1"
tracing-subscriber = { version = "0.3", default-features = false, features = ["env-filter", "fmt"] }
