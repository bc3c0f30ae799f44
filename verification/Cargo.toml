[package]
name = "task_reminder"
version = "0.1.0"
edition = "2021"
publish = false

[dependencies]
chrono = { version = "0.4", features = ["serde"] }
clap = { version = "4", features = ["derive"] }
google-calendar3 = "*"
hyper = "1"
hyper-rustls = "*"
hyper-util = "*"
serde = { version = "1", features = ["derive"] }
tokio = { version = "1", features = ["full"] }
yup-oauth2 = "*"
