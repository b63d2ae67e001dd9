[package]
name = "transit_fusion"
version = "0.1.0"
edition = "2021"
publish = false

[dependencies]
chrono = "=0.4.45"
chrono-tz = "=0.10.4"
csv = "=1.4.0"
zip = { version = "=8.6.0", default-features = false, features = ["deflate"] }
serde = { version = "=1.0.229", features = ["derive"] }
serde_json = "=1.0.151"
prost = "=0.14.4"
reqwest = { version = "=0.12.28", default-features = false, features = ["blocking", "rustls-tls"] }
tokio = { version = "=1.53.2", features = ["full"] }
actix-web = "=4.15.0"
actix-cors = "=0.7.2"
dirs = "=7.0.0"
