[package]
name = "grpc-low-latency-proxy"
version = "0.1.0"
edition = "2021"
publish = false

[dependencies]
anyhow = "=1.0.104"
axum = { version = "=0.8.9", default-features = false, features = ["http1", "tokio"] }
cryptoki = "=0.12.1"
flume = "=0.11.1"
governor = "=0.10.4"
http = "=1.5.0"
metrics = "=0.24.6"
metrics-exporter-prometheus = { version = "=0.17.2", default-features = false }
moka = { version = "=0.12.16", features = ["future", "sync"] }
p256 = { version = "=0.13.2", features = ["ecdsa", "pkcs8"] }
prost = "=0.14.4"
rand = "=0.8.8"
ring = "=0.17.14"
rsa = { version = "=0.9.10", features = ["sha2"] }
rustls = { version = "=0.23.46", default-features = false, features = ["ring", "std", "tls12"] }
serde = { version = "1.0", default-features = false, features = ["std"] }
sha2 = { version = "=0.10.9", features = ["oid"] }
tokio = { version = "=1.54.1", features = ["rt-multi-thread", "macros", "net", "signal", "sync", "time"] }
toml = "=0.9.12"
tonic = { version = "=0.14.9", features = ["tls-ring"] }
tonic-prost = "=0.14.9"
tonic-reflection = "=0.14.9"
tracing = "=0.1.44"
tracing-subscriber = { version = "=0.3.23", features = ["env-filter"] }
x509-parser = "=0.17.0"
