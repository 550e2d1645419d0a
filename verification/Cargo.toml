[package]
name = "key_manager"
version = "0.1.0"
edition = "2021"
publish = false

[dependencies]
aes-gcm = "0.10"
argon2 = "0.5"
bcrypt = "0.15"
chrono = { version = "0.4", features = ["serde"] }
dotenv = "0.15"
garde = { version = "*", features = ["email"] }
jsonwebtoken = "9"
lettre = { version = "0.11", default-features = false, features = ["smtp-transport", "builder", "rustls-tls"] }
log = "0.4"
once_cell = "1"
rand = "0.8"
regex = "1"
rocket = { version = "0.5", features = ["json"] }
rocket_cors = "0.6"
serde = { version = "1", features = ["derive"] }
serde_json = "1"
sqlx = { version = "0.8", default-features = false, features = ["postgres", "runtime-tokio", "chrono"] }
ssh-key = { version = "0.6", features = ["ed25519"] }
tokio = { version = "1", features = ["rt-multi-thread", "macros", "sync", "time"] }
tokio-cron-scheduler = "*"
uuid = { version = "1", features = ["v4"] }
