[package]
name = "event_planner"
version = "0.1.0"
edition = "2021"
publish = false

[dependencies]
actix-web = "*"
actix-cors = "*"
config = "*"
deadpool-postgres = { version = "*", features = ["serde"] }
derive_more = { version = "*", features = ["from"] }
dotenv = "*"
serde = { version = "*", features = ["derive"] }
tokio-pg-mapper = "*"
tokio-pg-mapper-derive = "*"
tokio-postgres = "*"
