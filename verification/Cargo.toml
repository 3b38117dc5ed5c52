[package]
name = "prometheus_http_query"
version = "0.1.0"
edition = "2021"
publish = false

[dependencies]
chrono = "=0.4.45"
serde = "=1.0.229"
serde_json = "=1.0.151"
async-trait = "=0.1.92"
reqwest = { version = "=0.11.27", default-features = false, features = ["json"] }
