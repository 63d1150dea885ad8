[package]
name = "lightbridge_authz"
version = "0.1.0"
edition = "2021"
publish = false

[dependencies]
anyhow = "=1.0.104"
async-trait = "=0.1.92"
axum = "=0.8.9"
chrono = { version = "=0.4.45", default-features = false, features = ["now", "serde"] }
clap = { version = "=4.6.7", features = ["derive", "env"] }
cuid = "=1.3.3"
diesel = { version = "=2.3.14", default-features = false, features = ["postgres_backend", "chrono", "serde_json"] }
diesel-async = { version = "=0.9.2", features = ["postgres", "bb8"] }
envoy-types = "=0.7.7"
jsonwebtoken = { version = "=10.4.0", features = ["rust_crypto"] }
jwks = "=0.5.3"
serde = { version = "=1.0.229", features = ["derive"] }
serde_json = "=1.0.154"
serde_yaml = "=0.9.34"
thiserror = "=2.0.21"
tokio = { version = "=1.54.1", features = ["rt-multi-thread", "macros", "net"] }
tonic = "=0.14.6"
tracing = "=0.1.44"
tracing-subscriber = { version = "=0.3.23", features = ["env-filter"] }
