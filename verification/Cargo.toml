[package]
name = "ansi_to_html_rs"
version = "0.1.0"
edition = "2021"
publish = false

[dependencies]
axum = { version = "*", features = ["multipart"] }
clap = { version = "*", features = ["derive"] }
dotenvy = "*"
tokio = { version = "*", features = ["macros", "rt-multi-thread", "net"] }
tower-http = { version = "*", features = ["fs"] }
