[package]
name = "mongokeeper"
version = "0.1.0"
edition = "2021"
publish = false

[dependencies]
bson = { version = "=3.1.0", features = ["serde"] }
mongodb = { version = "=3.9.1", default-features = false, features = ["compat-3-3-0", "bson-3", "rustls-tls"] }
serde = { version = "1", features = ["derive"] }
thiserror = "2"

[dev-dependencies]
tokio = { version = "1", features = ["rt", "time", "net", "sync"] }
