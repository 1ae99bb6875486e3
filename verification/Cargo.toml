[package]
name = "weblog"
version = "0.1.0"
edition = "2021"
publish = false

[dependencies]
regex = "1"
chrono = { version = "0.4", default-features = false, features = ["std", "clock"] }
sha2 = "0.10"
flate2 = "1"
serde = { version = "1", features = ["derive"] }
serde_json = "1"
serde_norway = "*"
thiserror = "2"
anyhow = "1"
clap = { version = "4", features = ["derive"] }
duckdb = { version = "1", default-features = false }
