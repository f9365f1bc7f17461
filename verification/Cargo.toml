[package]
name = "rayd"
version = "0.1.0"
edition = "2021"
publish = false

[dependencies]
axum = "0.7"
bincode = "2"
bytes = "1"
clap = { version = "4", features = ["derive"] }
ctrlc = "3"
futures-core = "0.3"
gethostname = "1"
hex = "0.4"
memmap2 = "0.9"
nix = { version = "0.29", features = ["fs", "mman", "socket", "uio"] }
opentelemetry = "0.27"
opentelemetry-otlp = { version = "0.27", features = ["grpc-tonic"] }
opentelemetry_sdk = { version = "0.27", features = ["rt-tokio"] }
parking_lot = "0.12"
prometheus = { version = "0.13", default-features = false }
prost = "0.13"
pyo3 = { version = "0.27", features = ["abi3-py310", "extension-module"] }
pyo3-introspection = "0.27"
rand = "0.9"
tempfile = "3"
thiserror = "2"
tokio = { version = "1", features = ["full"] }
tokio-stream = { version = "0.1", features = ["net"] }
tonic = "0.12"
tonic-health = "0.12"
tracing = "0.1"
tracing-opentelemetry = "0.28"
tracing-subscriber = { version = "0.3", features = ["env-filter", "json"] }

[dev-dependencies]
loom = "0.7"
