[package]
name = "filebox"
version = "0.1.0"
edition = "2021"
publish = false

[dependencies]
argon2 = "0.5"
axum = "0.7"
axum-extra = { version = "0.9", features = ["typed-header"] }
base64 = "0.22"
blurhash = "0.2"
chrono = "0.4"
diesel = { version = "2.2", default-features = false, features = ["chrono", "postgres_backend"] }
diesel-async = { version = "0.5", features = ["postgres", "bb8"] }
fast_image_resize = "2"
futures = "0.3"
futures-util = "0.3"
http-body-util = "0.1"
image = { version = "0.25", default-features = false, features = ["png", "jpeg"] }
infer = "0.16"
percent-encoding = "2"
rand = "0.9"
rust-s3 = { version = "0.35", default-features = false, features = ["tokio-rustls-tls", "fail-on-err"] }
serde = { version = "1", features = ["derive"] }
serde_json = "1"
sha2 = "0.10"
tokio = { version = "1", features = ["full"] }
tokio-util = { version = "0.7", features = ["io"] }
tower-http = { version = "0.5", features = ["fs"] }
ulid = "1"
webp = "0.3"
