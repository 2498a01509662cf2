[package]
name = "spai"
version = "0.1.0"
edition = "2021"
publish = false

[dependencies]
uuid = { version = "=1.29.0", features = ["v4", "serde"] }
chrono = { version = "=0.4.45", features = ["serde"] }
sha2 = "=0.10.9"
base64 = "=0.22.1"
url = "=2.5.8"
regex = "=1.13.1"
serde = { version = "=1.0.229", features = ["derive"] }
serde_json = "=1.0.154"
serde_yaml = "=0.9.34"
tokio = { version = "=1.54.1", features = ["full"] }
async-trait = "=0.1.92"
futures = "=0.3.34"
bytes = "=1.12.1"
parking_lot = "=0.12.5"
thiserror = "=1.0.69"
secrecy = "=0.8.0"
dotenvy = "=0.15.7"
reqwest = { version = "=0.12.28", default-features = false, features = ["json", "stream", "rustls-tls"] }
sqlx = { version = "=0.8.6", default-features = false, features = ["runtime-tokio", "sqlite", "postgres", "macros"] }
oxigraph = { version = "=0.4.11", default-features = false }
p256 = { version = "=0.13.2", features = ["ecdsa", "pem"] }
jsonwebtoken = "=9.3.1"
rand_core = { version = "=0.6.4", features = ["getrandom"] }
rmcp = { version = "=0.8.5", features = ["server", "client", "macros", "transport-io", "transport-child-process"] }
tracing = "=0.1.44"
tracing-subscriber = "=0.3.23"
sysinfo = { version = "=0.29.11", default-features = false }
