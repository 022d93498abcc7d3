[package]
name = "cms_data"
version = "0.1.0"
edition = "2021"
publish = false

[dependencies]
diesel = { version = "*", features = ["mysql", "r2d2", "chrono"] }
chrono = { version = "*", features = ["serde"] }
serde = { version = "*", features = ["derive"] }
actix-web = "*"
