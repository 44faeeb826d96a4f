[package]
name = "makita"
version = "0.1.0"
edition = "2021"
publish = false

[dependencies]
async-ctrlc = "1"
axum = "0.5"
chrono = "0.4"
clap = { version = "3", features = ["derive"] }
dialoguer = { version = "0.10", default-features = false }
futures = "0.3"
hex = "0.4"
hmac = "0.12"
log = "0.4"
log4rs = { version = "1", default-features = false, features = ["console_appender", "rolling_file_appender", "compound_policy", "size_trigger", "fixed_window_roller", "pattern_encoder"] }
octocrab = { version = "0.16", default-features = false, features = ["rustls"] }
regex = "1"
reqwest = { version = "0.11", default-features = false, features = ["rustls-tls"] }
ron = "0.7"
semver = "1"
serde = { version = "1", features = ["derive"] }
serde_json = "1"
serenity = { version = "0.11", default-features = false, features = ["builder", "cache", "client", "gateway", "http", "model", "utils", "rustls_backend"] }
sha2 = "0.10"
sqlx = { version = "0.6", default-features = false, features = ["postgres", "runtime-tokio-rustls", "macros"] }
tokio = { version = "1", features = ["rt-multi-thread", "macros", "sync", "time", "fs"] }
