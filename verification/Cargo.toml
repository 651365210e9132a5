[package]
name = "axum_cookie"
version = "0.1.0"
edition = "2021"
publish = false

[dependencies]
axum-core = "=0.5.6"
cookie-rs = "=0.4.2"
http = "=1.5.0"
tower-layer = "=0.3.3"
tower-service = "=0.3.3"
