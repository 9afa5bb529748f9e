[package]
name = "odproxy"
version = "0.1.0"
edition = "2021"
publish = false

[dependencies]
url = "=2.5.8"
hyper = { version = "=0.14.32", features = ["full"] }
hyperlocal = "=0.8.0"
tokio = { version = "=1.53.2", features = ["full"] }
tower = { version = "=0.4.13", features = ["make"] }
serde = { version = "=1.0.229", features = ["derive"] }
serde_yaml = "0.9"
lazy_static = "=1.5.1"
signal-hook = "0.3"
