[package]
name = "load_balancer"
version = "0.1.0"
edition = "2021"
publish = false

[dependencies]
rand = "0.9"
url = "2"
derive_more = { version = "1", features = ["display", "from_str"] }
hyper = { version = "0.14", features = ["full"] }
tokio = { version = "1", features = ["full"] }
axum = "0.7"
tower-http = { version = "0.5", features = ["fs"] }
tracing = "0.1"
color-eyre = "0.6"
dotenvy = "0.15"
lazy_static = "1"
async-trait = "0.1"
