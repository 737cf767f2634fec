[package]
name = "hotel_pms"
version = "0.1.0"
edition = "2021"
publish = false

[dependencies]
chrono = "0.4"
anyhow = "1"
async-trait = "0.1"
once_cell = "1"
salvo = { version = "*", features = ["oapi"] }
serde = { version = "1", features = ["derive"] }
sqlx = { version = "0.8", default-features = false, features = ["mysql", "runtime-tokio"] }
thiserror = "*"
tracing = "0.1"
