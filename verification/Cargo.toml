[package]
name = "threebot"
version = "0.1.0"
edition = "2021"
publish = false

[dependencies]
opus = "0.3"
sha2 = "0.10"
rand = "0.8"
tokio = { version = "1", features = ["full"] }
futures = "0.3"
log = "0.4"
pretty_env_logger = "0.5"
clap = { version = "4", features = ["derive"] }
serde = { version = "1", features = ["derive"] }
serde_yaml = "0.9"
dirs = "5"
chrono = "0.4"
async-trait = "0.1"
rustls = "0.23"
rustls-pki-types = "1"
tokio-rustls = "0.26"
webpki-roots = "0.26"
protobuf = "3"
sea-orm = { version = "1", default-features = false, features = ["macros", "sqlx-sqlite", "runtime-tokio-rustls", "with-chrono"] }
