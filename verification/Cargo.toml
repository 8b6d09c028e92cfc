[package]
name = "agentbus"
version = "0.2.0"
edition = "2021"
publish = false

[dependencies]
ulid = "1"
time = { version = "0.3", features = ["formatting", "parsing", "macros", "serde", "serde-well-known"] }
serde = { version = "1", features = ["derive"] }
serde_json = "1"
rusqlite = { version = "*", features = ["bundled"] }
clap = { version = "4", features = ["derive", "env"] }
tokio = { version = "1", features = ["full"] }
anyhow = "1"
thiserror = "*"
libc = "0.2"
tracing = "0.1"
tracing-subscriber = { version = "0.3", features = ["env-filter"] }
axum = "*"
futures = "0.3"
async-stream = "0.3"
