[package]
name = "markitdown"
version = "0.1.0"
edition = "2021"
publish = false

[dependencies]
url = "=2.5.8"
data-url = "=0.3.2"
encoding_rs = "=0.8.44"
chardetng = "=1.0.0"
infer = "=0.22.0"
zip = { version = "=2.6.1", default-features = false, features = ["deflate"] }
csv = "=1.4.0"
quick-xml = "=0.38.4"
calamine = "=0.38.0"
epub = "=2.1.6"
htmd = "=0.5.6"
scraper = "=0.29.0"
serde_json = "=1.0.154"
pdf-extract = "=0.12.1"
thiserror = "=2.0.21"
reqwest = { version = "=0.12.28", default-features = false, features = ["blocking", "rustls-tls", "json"] }
rmcp = { version = "=3.8.0", features = ["server", "macros", "transport-io"] }
tokio = { version = "=1.54.1", features = ["rt-multi-thread", "macros", "io-std"] }
clap = { version = "=4.6.7", features = ["derive"] }
serde = { version = "=1.0.229", features = ["derive"] }
tracing = "=0.1.44"
tracing-subscriber = { version = "=0.3.23", features = ["env-filter"] }
base64 = "=0.22.1"
