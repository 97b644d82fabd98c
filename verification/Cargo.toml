[package]
name = "macdive_exporter"
version = "0.1.0"
edition = "2021"
publish = false

[dependencies]
anyhow = "=1.0.104"
change-case = "=0.2.0"
clap = { version = "=3.2.25", features = ["derive"] }
dirs = "=7.0.0"
# change-case matches with these two; what src/text.rs says of its case
# conversions is read from these versions
fancy-regex = "=0.3.5"
regex = "=1.13.1"
futures = "=0.3.34"
reqwest = { version = "=0.12.28", default-features = false, features = ["json", "rustls-tls"] }
serde = { version = "=1.0.229", features = ["derive"] }
serde_yaml = "=0.8.26"
sqlx = { version = "=0.7.4", default-features = false, features = ["runtime-tokio", "sqlite"] }
thiserror = "=1.0.69"
tokio = { version = "=1.54.1", features = ["rt-multi-thread"] }
tracing = "=0.1.44"
