[package]
name = "kaspa_solo_bot"
version = "0.1.0"
edition = "2021"
rust-version = "1.95"
publish = false

[dependencies]
anyhow = "=1.0.104"
chrono = { version = "=0.4.45", default-features = false, features = ["std", "now"] }
dashmap = "=6.2.1"
dotenvy = "=0.15.7"
kaspa-addresses = "=0.15.0"
kaspa-hashes = "=0.15.0"
reqwest = { version = "=0.11.27", default-features = false, features = ["json", "multipart", "rustls-tls"] }
rev_lines = "=0.3.0"
serde = { version = "=1.0.229", features = ["derive"] }
serde_json = "=1.0.154"
sqlx = { version = "=0.8.6", default-features = false, features = ["runtime-tokio", "sqlite"] }
sysinfo = { version = "=0.29.11", default-features = false }
takecell = "=0.1.1"
teloxide = { version = "=0.13.0", default-features = false, features = ["macros", "ctrlc_handler", "rustls"] }
thiserror = "=1.0.69"
tokio = { version = "=1.54.1", features = ["full"] }
tokio-util = "=0.7.20"
tracing = "=0.1.44"
tracing-appender = "=0.2.5"
tracing-subscriber = { version = "=0.3.23", features = ["env-filter"] }
urlencoding = "=2.1.3"
wasm-bindgen = "=0.2.100"
