[package]
name = "anna-sync"
version = "1.4.0"
edition = "2021"
publish = false

[dependencies]
anyhow = "=1.0.104"
async-compression = { version = "=0.4.52", features = ["tokio", "brotli"] }
axum = { version = "=0.7.9", features = ["ws", "multipart"] }
blake3 = "=1.8.7"
chrono = { version = "=0.4.45", default-features = false, features = ["clock"] }
dashmap = "=6.2.1"
fastcdc = "=3.2.1"
futures-util = "=0.3.34"
h3 = "0.0.8"
h3-quinn = "0.0.10"
hex = "=0.4.3"
http-body-util = "=0.1.5"
jsonwebtoken = "=9.3.1"
local-ip-address = "=0.6.13"
mime_guess = "=2.0.5"
quinn = { version = "=0.11.12", default-features = false, features = ["runtime-tokio", "rustls-ring"] }
r2d2 = "=0.8.10"
r2d2_sqlite = { version = "=0.25.0", features = ["bundled"] }
rcgen = "=0.13.2"
reqwest = { version = "=0.12.28", default-features = false, features = ["json", "multipart", "stream", "rustls-tls"] }
rustls = { version = "=0.23.46", default-features = false, features = ["ring", "std"] }
rustls-pemfile = "=2.2.0"
serde = { version = "=1.0.229", features = ["derive"] }
serde_json = { version = "=1.0.154", features = ["preserve_order", "raw_value"] }
tokio = { version = "=1.54.1", features = ["full"] }
tokio-util = { version = "=0.7.20", features = ["io"] }
tower = { version = "=0.5.3", features = ["util"] }
tower-http = { version = "=0.6.11", features = ["compression-gzip", "cors", "fs", "set-header", "trace"] }
tracing = "=0.1.44"
uuid = { version = "=1.29.0", features = ["v4"] }
