[package]
name = "orion"
version = "0.1.0"
edition = "2021"
publish = false

[dependencies]
axum = "=0.8.9"
base64 = "=0.22.1"
bincode-next = { version = "=3.1.1", features = ["serde"] }
chrono = { version = "=0.4.45", default-features = false, features = ["clock", "std"] }
chrono-tz = "=0.10.4"
crossbeam-queue = "=0.3.14"
dashmap = "=6.2.1"
http = "=1.5.0"
http-body-util = "0.1"
http-serde-ext = "1"
hyper = { version = "1", features = ["client", "http1", "http2", "server"] }
hyper-util = { version = "0.1", features = ["tokio"] }
maud = "=0.27.0"
memory-stats = "=1.2.0"
opentelemetry = { version = "=0.31.0", default-features = false, features = ["trace"] }
papaya = "=0.2.5"
quanta = "=0.12.6"
rand = "=0.9.5"
rustls = { version = "=0.23.46", default-features = false, features = ["std", "tls12"] }
serde = { version = "=1.0.229", features = ["derive"] }
serde_json = "=1.0.154"
tikv-jemalloc-ctl = { version = "0.6", features = ["stats"] }
tokio = { version = "=1.54.1", features = ["rt-multi-thread", "net", "time", "sync", "io-util", "macros"] }
tokio-rustls = { version = "0.26", default-features = false, features = ["tls12"] }
tonic = { version = "0.14", default-features = false, features = ["channel"] }
tracing = "=0.1.44"
tracing-appender = "0.2"
tracing-subscriber = { version = "0.3", features = ["env-filter"] }
wasmtime = { version = "36", default-features = false, features = ["async", "cranelift", "runtime", "std", "wat"] }
x509-parser = "=0.17.0"
