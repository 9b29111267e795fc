[package]
name = "wc3bot"
version = "0.1.0"
edition = "2021"
publish = false

[dependencies]
anyhow = "=1.0.104"
dotenvy = "=0.15.7"
futures = "=0.3.34"
log = "=0.4.35"
pretty_env_logger = "=0.5.0"
reqwest = { version = "=0.12.28", features = ["json"] }
rusqlite = "=0.41.1"
serde = { version = "=1.0.229", features = ["derive"] }
# Not used directly: teloxide depends on takecell, and takecell 0.1.2 needs
# rustc 1.96; 0.1.1 is pinned so the crate builds with rustc 1.95.
takecell = "=0.1.1"
teloxide = "=0.17.0"
tokio = { version = "=1.54.1", features = ["rt-multi-thread", "macros", "time"] }
