[package]
name = "pacmine"
version = "0.1.0"
edition = "2021"
publish = false

[dependencies]
anyhow = "*"
axum = { version = "*", features = ["ws"] }
chrono = "*"
clap = { version = "*", features = ["derive"] }
colored = "*"
futures = "*"
log = "*"
nix = { version = "*", features = ["fs", "mount", "resource", "sched", "user"] }
serde = { version = "*", features = ["derive"] }
simplelog = "*"
tokio = { version = "*", features = ["full"] }
toml = "*"
tracing = "*"
tree_magic_mini = "*"
uuid = { version = "*", features = ["v4"] }
walkdir = "*"
zip = { version = "*", default-features = false, features = ["deflate"] }
