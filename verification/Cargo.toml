[package]
name = "ch_grafana_cache"
version = "0.1.0"
edition = "2021"
publish = false

[dependencies]
anyhow = "=1.0.104"
bat = { version = "=0.26.1", default-features = false, features = ["regex-fancy"] }
clap = { version = "=4.6.7", features = ["derive", "env"] }
colored = "=3.1.1"
futures = "=0.3.34"
indicatif = "=0.18.6"
itertools = "=0.15.0"
lazy_static = "1"
reqwest = { version = "=0.13.5", default-features = false, features = ["json", "query", "stream"] }
reqwest-middleware = { version = "=0.5.2", features = ["query"] }
reqwest-retry = "=0.9.1"
serde = { version = "1", features = ["derive"] }
serde_json = "1"
serde_yaml = "0.9"
thiserror = "=2.0.21"
tokio = { version = "=1.54.1", features = ["macros", "rt-multi-thread"] }
tracing = "0.1"
tracing-subscriber = { version = "=0.3.23", features = ["env-filter", "json"] }

[dev-dependencies]
regex = "=1.13.1"
