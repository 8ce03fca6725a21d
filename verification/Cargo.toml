[package]
name = "harbor"
version = "0.1.0"
edition = "2021"
publish = false

[dependencies]
rand = "=0.8.8"
rustls-pemfile = "=2.2.0"
rcgen = "=0.14.10"
serde = { version = "=1.0.229", features = ["derive"] }
serde_json = "=1.0.154"
toml = "=0.8.23"
anyhow = "=1.0.104"
tokio = { version = "=1.54.1", features = ["full"] }
axum = "=0.7.9"
hyper = { version = "=1.12.0", features = ["http1", "server", "client"] }
hyper-util = { version = "=0.1.21", features = ["tokio"] }
http-body-util = "=0.1.5"
bytes = "=1.12.1"
reqwest = { version = "=0.12.28", default-features = false, features = ["json", "rustls-tls"] }
clap = { version = "=4.6.7", features = ["derive"] }
dirs = "=5.0.1"
chrono = "=0.4.45"
tracing = "=0.1.44"
tracing-subscriber = { version = "=0.3.23", features = ["env-filter"] }
notify = "=6.1.1"
rustls = { version = "=0.23.46", default-features = false, features = ["ring", "std", "tls12", "logging"] }
tokio-rustls = { version = "=0.26.6", default-features = false, features = ["ring", "logging", "tls12"] }
instant-acme = "=0.8.5"
windows-service = "=0.8.1"
windows-sys = { version = "=0.61.2", features = ["Win32_Foundation"] }
