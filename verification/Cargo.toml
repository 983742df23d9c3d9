[package]
name = "tidewave_core"
version = "0.1.0"
edition = "2021"
publish = false

[dependencies]
agent-client-protocol = "=0.4.7"
anyhow = "=1.0.104"
async-compression = { version = "=0.4.52", features = ["tokio", "gzip", "brotli"] }
async-stream = "=0.3.6"
async-trait = "=0.1.92"
axum = { version = "=0.8.9", features = ["ws"] }
axum-server = { version = "=0.7.3", default-features = false, features = ["tls-rustls-no-provider"] }
bytes = "=1.12.1"
dashmap = "=6.2.1"
dirs = "=6.0.0"
flate2 = "=1.1.10"
futures = "=0.3.34"
libc = "=0.2.191"
notify = "=8.2.1"
portable-pty = "=0.9.0"
reqwest = { version = "=0.12.28", default-features = false, features = ["stream", "rustls-tls"] }
rustls = { version = "=0.23.46", default-features = false, features = ["ring", "std", "tls12"] }
rustls-pemfile = "=2.2.0"
rustls-platform-verifier = "=0.6.2"
serde = { version = "=1.0.229", features = ["derive"] }
serde_json = "=1.0.154"
tar = "=0.4.46"
tokio = { version = "=1.54.1", features = ["full"] }
tokio-util = { version = "=0.7.20", features = ["compat", "io"] }
toml = "=0.9.12+spec-1.1.0"
tracing = "=0.1.44"
uuid = { version = "=1.29.0", features = ["v4"] }
which = "=8.0.6"
winapi = { version = "0.3", features = ["errhandlingapi", "handleapi", "jobapi2", "processthreadsapi", "winbase", "winnt"] }
