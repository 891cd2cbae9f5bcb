[package]
name = "nepospot"
version = "0.1.0"
edition = "2021"
publish = false

[dependencies]
anyhow = "*"
chrono = "*"
lambda_http = "*"
mediawiki = "*"
serde_json = "*"
tokio = { version = "*", features = ["macros", "rt"] }
