[package]
name = "db_copier"
version = "0.1.0"
edition = "2021"
publish = false

[dependencies]
sha2 = "0.10"
chrono = "0.4"
env_logger = "*"
futures = "0.3"
log = "0.4"
native-tls = "*"
postgres-native-tls = "*"
rusqlite = "*"
serde = { version = "1", features = ["derive"] }
serde_json = "1"
ssh2 = "*"
tokio = { version = "1", features = ["full"] }
tokio-postgres = "*"
tokio-rusqlite = "*"
