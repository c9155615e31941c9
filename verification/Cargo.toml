[package]
name = "timeline_plugin_git"
version = "0.1.0"
edition = "2021"
publish = false

[dependencies]
chrono = { version = "0.4", default-features = false, features = ["std"] }
futures = "0.3"
git2 = { version = "0.19", default-features = false }
leptos = { version = "0.6", default-features = false }
mongodb = "2"
serde = { version = "1", features = ["derive"] }
tokio = { version = "1", features = ["fs", "rt", "time"] }
toml = "0.8"
