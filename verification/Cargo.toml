[package]
name = "server"
version = "0.1.0"
edition = "2021"
publish = false

[dependencies]
simsearch = "=0.2.5"
serde = { version = "=1.0.229", features = ["derive"] }
serde_json = "=1.0.154"
config = { version = "=0.15.27", default-features = false, features = ["toml", "json"] }
actix-web = "=4.18.1"
actix-cors = "=0.7.2"
futures = "=0.3.34"
sqlx = { version = "=0.9.0", default-features = false, features = ["sqlite", "runtime-tokio", "macros"] }
tracing = "=0.1.44"
tracing-actix-web = "=0.7.25"
tracing-bunyan-formatter = "=0.3.11"
tracing-subscriber = { version = "=0.3.23", features = ["env-filter", "registry"] }
