[package]
name = "paged_fetcher"
version = "0.1.0"
edition = "2021"
publish = false

[dependencies]
base64 = "0.22"
http-body = "0.4"
hyper = { version = "0.14", features = ["client", "http1", "http2", "tcp"] }
hyper-tls = "0.5"
lambda_runtime = "0.8"
serde = { version = "1", features = ["derive"] }
tokio = { version = "1", features = ["macros", "rt-multi-thread"] }
