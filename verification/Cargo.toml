[package]
name = "ext_cardano_dbsync"
version = "0.1.0"
edition = "2021"
publish = false

[dependencies]
actix-web = { version = "4", default-features = false, features = ["macros"] }
bech32 = "0.9"
chrono = "0.4"
deadpool-postgres = "0.12"
dotenv = "0.15"
futures = "0.3"
k8s-openapi = { version = "0.20", features = ["latest"] }
kube = { version = "0.87", features = ["runtime", "client", "derive"] }
lazy_static = "1.4"
prometheus = "0.13"
rand = "0.8"
reqwest = { version = "0.11", default-features = false, features = ["json"] }
schemars = "0.8"
serde = { version = "1", features = ["derive"] }
serde_json = "1"
serde_yaml = "0.9"
sha3 = "0.10"
thiserror = "1"
tokio = { version = "1", features = ["macros", "rt-multi-thread", "signal", "time"] }
tokio-postgres = "0.7"
tracing = "0.1"
tracing-subscriber = "0.3"
