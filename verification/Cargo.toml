[package]
name = "rayo"
version = "0.1.0"
edition = "2021"
publish = false

[dependencies]
matchit = "0.8"
pyo3 = "*"
tokio = { version = "1", features = ["full"] }
hyper = { version = "1", features = ["http1", "http2", "server"] }
hyper-util = { version = "0.1", features = ["server", "server-auto", "server-graceful", "tokio", "http1", "http2", "service"] }
http-body-util = "0.1"
bytes = "1"
