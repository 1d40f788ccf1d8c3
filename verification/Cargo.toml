[package]
name = "raiden"
version = "0.1.0"
edition = "2021"
publish = false

[dependencies]
ethabi = "*"
web3 = { version = "*", default-features = false, features = ["http", "ws-tokio"] }
rusqlite = { version = "*", features = ["bundled"] }
serde = { version = "*", features = ["derive"] }
serde_json = "*"
slog = "*"
hyper = { version = "0.14", features = ["full"] }
tokio = { version = "*", features = ["full"] }
futures = "*"
ethsign = "*"
