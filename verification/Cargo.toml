[package]
name = "timehair"
version = "0.1.0"
edition = "2021"
publish = false

[dependencies]
bcrypt = "0.15"
chrono = { version = "0.4", default-features = false, features = ["clock", "std", "serde"] }
jsonwebtoken = "9"
once_cell = "1"
parking_lot = "0.12"
rusqlite = { version = "0.31", features = ["bundled"] }
serde = { version = "1", features = ["derive"] }
uuid = { version = "1", features = ["v4"] }
