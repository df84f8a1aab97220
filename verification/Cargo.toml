[package]
name = "melops"
version = "0.1.0"
edition = "2021"
publish = false

[dependencies]
scraper = "*"
dirs = "*"
serde = { version = "1", features = ["derive"] }
serde_json = "1"
thiserror = "2"
eyre = "0.6"
color-eyre = "0.6"
clap = { version = "4", features = ["derive"] }
tokio = { version = "1", features = ["full"] }
futures = "0.3"
async-stream = "0.3"
reqwest = { version = "0.12", default-features = false, features = ["blocking", "rustls-tls"] }
cacache = { version = "13", default-features = false, features = ["tokio-runtime", "mmap"] }
tracing = "0.1"
tracing-subscriber = { version = "0.3", features = ["env-filter"] }
tracing-appender = "0.2"
ndarray = "0.16"
ndarray-stats = "0.6"
rustfft = "6"
tokenizers = "*"
pyo3 = "*"
ort = { version = "2.0.0-rc.10", default-features = false, features = ["ndarray", "load-dynamic"] }
