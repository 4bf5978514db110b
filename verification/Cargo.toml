[package]
name = "stock_crawler"
version = "0.1.0"
edition = "2021"
publish = false

[dependencies]
chrono = "=0.4.45"
rust_decimal = "=1.43.0"
subtle = "=2.6.1"
x509-parser = "=0.18.1"
rustls-pki-types = "=1.15.1"
serde = { version = "=1.0.229", features = ["derive"] }
anyhow = "=1.0.104"
async-trait = "=0.1.92"
once_cell = "=1.21.4"
tokio = { version = "=1.54.1", features = ["full"] }
axum = "=0.8.9"
sqlx = { version = "=0.8.6", default-features = false, features = ["runtime-tokio", "postgres", "chrono", "rust_decimal", "derive"] }
tracing = "=0.1.44"
utoipa = { version = "=5.5.0", features = ["axum_extras"] }
utoipa-swagger-ui = { version = "=9.0.2", features = ["axum", "vendored"] }
tonic = { version = "=0.14.9", features = ["tls-ring"] }
reqwest = { version = "=0.12.28", default-features = false, features = ["json", "rustls-tls"] }
