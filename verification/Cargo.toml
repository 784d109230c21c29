[package]
name = "fwlog"
version = "0.1.0"
edition = "2021"
publish = false

[dependencies]
regex = "=1.13.1"
sha2 = "=0.10.9"
chrono = "=0.4.45"
arrayvec = "=0.7.8"
serde = { version = "=1.0.229", features = ["derive"] }
serde_json = "=1.0.154"
toml = "=0.8.23"
anyhow = "=1.0.104"
tokio = { version = "=1.54.1", features = ["full"] }
axum = "=0.7.9"
tower-http = { version = "=0.5.2", features = ["fs"] }
flume = "=0.11.1"
futures = "=0.3.34"
tokio-util = { version = "=0.7.20", features = ["codec"] }
tracing = "=0.1.44"
tracing-subscriber = { version = "=0.3.23", features = ["env-filter"] }
clap = { version = "=4.6.7", features = ["derive"] }
zstd = "=0.13.4"
tar = "=0.4.46"
flate2 = "=1.1.10"
csv = "=1.4.0"
rayon = "=1.12.0"
xdb-parse = "*"
