[package]
name = "indexer"
version = "0.1.0"
edition = "2021"
publish = false

[dependencies]
alloy = { version = "=0.9.2", default-features = false, features = ["std", "json-abi", "rpc-types", "providers"] }
sqlx = { version = "=0.8.6", default-features = false, features = ["postgres", "runtime-tokio"] }
tokio = { version = "=1.54.1", features = ["macros", "rt-multi-thread", "time"] }
tower = { version = "=0.5.3", features = ["limit", "util"] }
serde = "=1.0.219"
serde_json = "=1.0.140"
thiserror = "=2.0.21"
