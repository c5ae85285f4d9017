[package]
name = "proxy_pipeline"
version = "0.1.0"
edition = "2021"
publish = false

[dependencies]
rand = { version = "0.8", features = ["small_rng"] }
hyper = { version = "0.14", features = ["client", "http1", "tcp"] }
hyper-tls = "0.5"
