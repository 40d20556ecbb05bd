[package]
name = "cafehub"
version = "0.1.0"
edition = "2021"
publish = false

[dependencies]
bcrypt = "*"
chrono = { version = "0.4", features = ["serde"] }
postgres = { version = "0.19", features = ["with-chrono-0_4"] }
r2d2 = "0.8"
r2d2_postgres = "0.18"
rust_decimal = { version = "1", features = ["db-postgres"] }
serde = { version = "1", features = ["derive"] }
serde_json = "1"
