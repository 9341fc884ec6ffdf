[package]
name = "user_service"
version = "0.1.0"
edition = "2021"
publish = false

[dependencies]
chrono = "0.4"
actix-web = "3"
diesel = { version = "1.4", features = ["sqlite", "r2d2"] }
libsqlite3-sys = { version = "0.22", features = ["bundled"] }
dotenv = "0.15"
serde = { version = "1", features = ["derive"] }
