[package]
name = "folketinget_mirror"
version = "0.1.0"
edition = "2021"
publish = false

[dependencies]
chrono = "=0.4.45"
chrono-tz = "=0.10.4"
folketinget-api-models = "=0.2.0"
futures = "0.3"
hyper = { version = "=0.14.32", features = ["client", "http1", "tcp"] }
hyper-tls = "0.5"
log = "0.4"
odata-simple-client = "=0.2.6"
pretty_env_logger = "*"
r2d2 = "0.8"
r2d2_sqlite = "=0.35.0"
rusqlite = { version = "=0.40.2", features = ["backup"] }
rusqlite_migration = "=2.6.0"
serde = { version = "1", features = ["derive"] }
serde_json = "1"
tokio = { version = "1", features = ["macros", "rt", "signal", "sync", "time"] }
warp = "=0.3.7"
