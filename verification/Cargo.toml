[package]
name = "turborepo-cfworkers"
version = "0.1.0"
edition = "2021"
publish = false

[dependencies]
axum = { version = "0.8", default-features = false, features = ["json"] }
axum-extra = { version = "0.10", features = ["typed-header"] }
futures-util = "0.3"
regex = "1"
serde = { version = "1", features = ["derive"] }
serde-wasm-bindgen = "0.6"
subtle = "2"
tower-service = "0.3"
utoipa = "5"
utoipa-axum = "0.2"
utoipa-scalar = { version = "0.3", features = ["axum"] }
worker = { version = "*", features = ["http", "axum"] }
