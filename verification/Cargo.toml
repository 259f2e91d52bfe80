[package]
name = "tectonic-api"
version = "0.1.0"
edition = "2021"
publish = false

[dependencies]
axum = "=0.8.9"
gxhash = "=3.5.0"
moka = { version = "=0.12.16", features = ["future"] }
reqwest = { version = "=0.12.28", default-features = false, features = ["json", "blocking", "native-tls"] }
retry = "=2.2.0"
serde = { version = "=1.0.229", features = ["derive", "rc"] }
tectonic = { version = "=0.17.0", default-features = false }
tectonic_bundles = { version = "=0.4.2", default-features = false }
tectonic_engine_xetex = "=0.5.3"
tectonic_io_base = "=0.6.0"
tokio = { version = "=1.54.1", features = ["full"] }
utoipa = "=5.5.0"
utoipa-scalar = { version = "=0.3.0", features = ["axum"] }
utoipauto = "=0.2.0"
