[package]
name = "credvault"
version = "0.1.0"
edition = "2021"
publish = false

[dependencies]
bcrypt = "*"
rand = "0.8"
actix-web = { version = "*", default-features = false, features = ["macros", "cookies"] }
actix-session = { version = "*", features = ["cookie-session"] }
actix-cors = "*"
serde = { version = "*", features = ["derive"] }
env_logger = "*"
