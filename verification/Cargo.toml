[package]
name = "meal_planner"
version = "0.1.0"
edition = "2021"
publish = false

[dependencies]
axum = "*"
chrono = "*"
csv-async = { version = "*", features = ["tokio"] }
dotenv = "*"
minilp = "*"
serde = { version = "*", features = ["derive"] }
serde_json = "*"
serde_with = "*"
strum_macros = "*"
tokio = { version = "*", features = ["full"] }
tokio-stream = "*"
tower-http = { version = "*", features = ["cors", "fs"] }
uuid = { version = "*", features = ["v4"] }
