[package]
name = "ya-gcp"
version = "0.11.0"
edition = "2021"
publish = false

[dependencies]
http = "0.2"
prost = "0.12"
prost-types = "0.12"
serde_json = "1"
serde = { version = "1", features = ["derive"] }
tame-gcs = "0.12"
tonic = "0.11"
tokio = { version = "1", features = ["time", "sync", "rt", "macros", "process"] }
futures = "0.3"
hyper = { version = "0.14", features = ["client", "http1", "http2", "tcp", "stream"] }
hyper-rustls = { version = "0.24", features = ["http2"] }
rustls = "0.21"
yup-oauth2 = "8"
rand = "0.8"
tracing = "0.1"
thiserror = "1"
async-stream = "0.3"
uuid = { version = "1", features = ["v4"] }
pin-project = "1"
humantime-serde = "1"
tempdir = "0.3"
bytes = "1"
