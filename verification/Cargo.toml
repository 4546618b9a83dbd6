[package]
name = "bookstore"
version = "0.1.0"
edition = "2021"
publish = false

[dependencies]
actix-web = "*"
diesel = { version = "*", features = ["postgres", "r2d2"] }
serde = { version = "*", features = ["derive"] }
env_logger = "*"
log = "*"
