[package]
name = "arachne"
version = "0.1.0"
edition = "2021"
publish = false

[dependencies]
scraper = "=0.29.0"
image = { version = "=0.25.10", default-features = false, features = ["bmp", "dds", "exr", "ff", "gif", "hdr", "ico", "jpeg", "png", "pnm", "qoi", "tga", "tiff", "webp"] }
image_hasher = "=3.1.1"
chrono = { version = "=0.4.45", features = ["serde"] }
uuid = { version = "=1.29.0", features = ["v4", "serde"] }
rand = "=0.10.3"
tokio = { version = "=1.54.1", features = ["full"] }
axum = "=0.8.9"
clap = { version = "=4.6.7", features = ["derive", "env"] }
sqlx = { version = "=0.9.0", default-features = false, features = ["runtime-tokio", "postgres", "uuid", "chrono", "json", "macros"] }
reqwest = { version = "=0.13.5", default-features = false }
chromiumoxide = "=0.9.1"
redis = { version = "=1.8.1", features = ["tokio-comp", "connection-manager"] }
rust-s3 = "=0.38.0"
tracing = "=0.1.44"
tracing-subscriber = { version = "=0.3.23", features = ["env-filter"] }
serde = { version = "=1.0.229", features = ["derive"] }
serde_json = "=1.0.154"
anyhow = "=1.0.104"
thiserror = "=2.0.21"
futures = "=0.3.34"
async-trait = "=0.1.92"
