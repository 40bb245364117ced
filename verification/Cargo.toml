[package]
name = "sentryx"
version = "0.1.0"
edition = "2021"
publish = false

[dependencies]
regex = "*"
serde = { version = "*", features = ["derive"] }
serde_json = "*"
actix-web = "*"
actix-ws = "*"
sysinfo = "*"
systemctl = "*"
