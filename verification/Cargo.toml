[package]
name = "html_case"
version = "0.1.0"
edition = "2021"
publish = false

[dependencies]
kuchikiki = "=0.8.2"
html5ever = "=0.26.0"
axum = { version = "=0.8.9", features = ["macros"] }
clap = { version = "=4.6.7", features = ["derive"] }
serde = { version = "=1.0.229", features = ["derive"] }
thiserror = "=2.0.21"
tokio = { version = "=1.54.1", features = ["rt-multi-thread", "macros", "net"] }
tower-http = { version = "=0.7.1", features = ["fs"] }
