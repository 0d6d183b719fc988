[package]
name = "blog"
version = "0.1.0"
edition = "2021"
publish = false

[dependencies]
base64 = "0.13"
urlencoding = "2"
maud = "0.25"
pulldown-cmark = { version = "0.9", default-features = false }
syntect = { version = "5", default-features = false, features = ["default-fancy"] }
moka = { version = "0.12", features = ["sync", "future"] }
axum = "0.6"
axum-auth = { version = "0.4", default-features = false, features = ["auth-basic"] }
tokio = { version = "1", features = ["full"] }
tower-http = { version = "0.4", features = ["fs"] }
sqlx = { version = "0.7", default-features = false, features = ["mysql", "runtime-tokio", "time", "migrate"] }
time = "0.3"
tracing = "0.1"
tracing-subscriber = "0.3"
once_cell = "1"
