[package]
name = "job_board"
version = "0.1.0"
edition = "2021"
publish = false

[dependencies]
jsonwebtoken = { version = "=11.1.0", features = ["rust_crypto"] }
argon2 = "=0.6.0"
chrono = { version = "=0.4.45", features = ["serde"] }
serde_json = "=1.0.151"
serde = { version = "*", features = ["derive"] }
actix-web = { version = "=4.15.0", default-features = false, features = ["macros"] }
sqlx = { version = "=0.9.0", default-features = false, features = ["mysql", "runtime-tokio", "chrono", "derive"] }
dotenvy = "*"
futures-util = "*"
