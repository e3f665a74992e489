[package]
name = "wgadmin"
version = "0.1.0"
edition = "2021"
publish = false

[dependencies]
rwg = "*"
serde = { version = "*", features = ["derive"] }
serde_json = "*"
actix-web = "*"
actix-rt = "*"
actix-service = "*"
