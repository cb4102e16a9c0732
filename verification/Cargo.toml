[package]
name = "flv_publisher"
version = "0.1.0"
edition = "2021"
publish = false

[dependencies]
anyhow = "1"
bytes = "1"
clap = { version = "4", features = ["derive"] }
log = "0.4"
nom = "7"
rml_rtmp = "0.8"
simplelog = "0.12"
tokio = { version = "1", features = ["full"] }
url = "2"
