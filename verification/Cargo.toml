[package]
name = "oxiscale"
version = "0.1.0"
edition = "2021"
publish = false

[dependencies]
anyhow = "1"
async-trait = "*"
axum = "*"
base64 = "0.22"
bytes = "1"
futures-util = { version = "0.3", features = ["sink"] }
http-body-util = "*"
hyper = { version = "1", features = ["server", "http1", "http2"] }
hyper-util = { version = "*", features = ["tokio", "server"] }
pin-project-lite = "*"
serde = { version = "1", features = ["derive"] }
serde_json = "1"
serde_yaml = "*"
thiserror = "*"
tokio = { version = "1", features = ["full"] }
tokio-util = { version = "*", features = ["codec"] }
toml = "*"
tracing = "*"
tracing-subscriber = { version = "*", features = ["env-filter", "fmt"] }
ts_capabilityversion = "*"
ts_control_noise = "*"
ts_control_serde = "*"
ts_keys = "*"
ts_noise = "*"
x25519-dalek = { version = "2", features = ["static_secrets", "getrandom"] }
