[package]
name = "ferropress"
version = "0.1.0"
edition = "2021"
publish = false

[dependencies]
anyhow = "*"
axum = "*"
chrono = "*"
clap = { version = "*", features = ["derive"] }
gray_matter = "*"
notify = "*"
pulldown-cmark = "*"
serde = { version = "*", features = ["derive"] }
tera = "*"
tokio = { version = "*", features = ["full"] }
tokio-util = "*"
toml = "*"
tower-http = { version = "*", features = ["fs"] }
tower-livereload = "*"
