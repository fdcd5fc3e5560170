[package]
name = "rail_gtfs"
version = "0.1.0"
edition = "2021"
publish = false

[dependencies]
anyhow = "=1.0.104"
csv = "=1.4.0"
osmpbfreader = "=0.19.1"
reqwest = { version = "=0.12.28", default-features = false, features = ["blocking", "json", "rustls-tls"] }
serde = { version = "=1.0.229", features = ["derive"] }
zip = { version = "=9.1.0", default-features = false, features = ["deflate"] }
