[package]
name = "availcheck"
version = "0.1.0"
edition = "2021"
publish = false

[dependencies]
async-trait = "=0.1.92"
clap = { version = "=3.2.25", features = ["derive"] }
crossbeam-channel = "=0.5.17"
futures = "=0.3.34"
http = "=0.2.12"
hyper = { version = "=0.14.32", features = ["full"] }
hyper-rustls = "=0.22.1"
opentelemetry = "=0.16.0"
opentelemetry-jaeger = "=0.15.0"
rustls = "=0.19.1"
serde = { version = "=1.0.229", features = ["derive", "rc"] }
serde_yaml = "=0.8.26"
thiserror = "=1.0.69"
tokio = { version = "=1.54.1", features = ["full"] }
tower-service = "=0.3.3"
tracing = "=0.1.44"
tracing-opentelemetry = "=0.16.0"
tracing-subscriber = "=0.3.23"
trust-dns-resolver = "=0.20.4"
url = "=2.5.8"
webpki-roots = "=0.21.1"
